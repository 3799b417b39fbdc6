//! Friend lists: blocked users, the empty-list notice, and the members of a
//! group conversation as the group editor lists them.

use vstd::prelude::*;
use vstd::string::*;
use vstd::utf8::*;
use crate::text::{contains_ignore_ascii_case, contains_seq, lowered, text_eq};

verus! {

/// The suffix shown after a blocked user's name: the last six characters
/// of their DID key, last character first (fewer when the key is shorter).
pub open spec fn did_suffix_of(did: Seq<char>) -> Seq<char> {
    let n = if did.len() < 6 { did.len() } else { 6 };
    Seq::new(n, |i: int| did[did.len() - 1 - i])
}

/// The suffix of a blocked user's DID key: its characters read from the
/// end, at most six of them.
pub fn did_suffix(did: &str) -> (r: String)
    ensures
        r@ == did_suffix_of(did@),
{
    let len = did.unicode_len();
    let n = if len < 6 { len } else { 6 };
    let mut r = String::new();
    for i in 0..n
        invariant
            len == did@.len(),
            n <= len,
            n == did_suffix_of(did@).len(),
            r@ == did_suffix_of(did@).subrange(0, i as int),
    {
        let c = did.substring_char(len - 1 - i, len - i);
        r.append(c);
        assert(r@ =~= did_suffix_of(did@).subrange(0, i + 1));
    }
    assert(r@ =~= did_suffix_of(did@));
    r
}

/// Why unblocking a user failed.
#[derive(Clone, Copy, Debug, PartialEq, Eq, Structural)]
pub enum UnblockError {
    /// The user was not blocked.
    PublicKeyIsntBlocked,
    /// Any other failure of the messaging service.
    Other,
}

/// Whether a failure to unblock a user is reported: every failure but that
/// the user was not blocked.
pub fn unblock_error_is_reported(e: UnblockError) -> (r: bool)
    ensures
        r == (e != UnblockError::PublicKeyIsntBlocked),
{
    match e {
        UnblockError::PublicKeyIsntBlocked => false,
        UnblockError::Other => true,
    }
}

/// Whether the friends page shows its "nothing to see here" notice: on the
/// "Pending" tab when there are no incoming or outgoing requests, on the
/// "Blocked" tab when no one is blocked, never on another tab.
pub fn show_nothing_here(friends_tab: &str, incoming: usize, outgoing: usize, blocked: usize) -> (r:
    bool)
    requires
        incoming + outgoing <= usize::MAX,
    ensures
        r == if friends_tab@ == "Pending"@ {
            incoming + outgoing == 0
        } else if friends_tab@ == "Blocked"@ {
            blocked == 0
        } else {
            false
        },
{
    if text_eq(friends_tab, "Pending") {
        incoming == 0 && outgoing == 0
    } else if text_eq(friends_tab, "Blocked") {
        blocked == 0
    } else {
        false
    }
}

/// A friend as the group editor lists them: their DID key and user name.
#[derive(Clone, Debug)]
pub struct Friend {
    pub did: String,
    pub username: String,
}

/// A friend as plain values.
pub struct FriendView {
    pub did: Seq<char>,
    pub username: Seq<char>,
}

impl View for Friend {
    type V = FriendView;

    open spec fn view(&self) -> FriendView {
        FriendView { did: self.did@, username: self.username@ }
    }
}

impl Friend {
    /// A copy of this friend, equal to it field by field.
    pub fn duplicate(&self) -> (r: Friend)
        ensures
            r == *self,
    {
        Friend { did: self.did.clone(), username: self.username.clone() }
    }
}

/// The friends of a list as plain values.
pub open spec fn friend_views(v: Seq<Friend>) -> Seq<FriendView> {
    v.map_values(|f: Friend| f@)
}

/// The DID keys of a list as plain values.
pub open spec fn texts(v: Seq<String>) -> Seq<Seq<char>> {
    v.map_values(|s: String| s@)
}

/// The elements of `s` that satisfy `keep`, in order.
pub open spec fn kept<T>(s: Seq<T>, keep: spec_fn(T) -> bool) -> Seq<T>
    decreases s.len(),
{
    if s.len() == 0 {
        Seq::empty()
    } else {
        let rest = kept(s.drop_last(), keep);
        if keep(s.last()) {
            rest.push(s.last())
        } else {
            rest
        }
    }
}

/// Whether `did` is one of `dids`.
pub fn contains_text(dids: &Vec<String>, did: &str) -> (r: bool)
    ensures
        r == texts(dids@).contains(did@),
{
    let n = dids.len();
    for i in 0..n
        invariant
            n == dids@.len(),
            forall|j: int| 0 <= j < i ==> dids@[j]@ != did@,
    {
        if text_eq(dids[i].as_str(), did) {
            assert(texts(dids@)[i as int] == did@);
            return true;
        }
    }
    assert forall|j: int| 0 <= j < texts(dids@).len() implies texts(dids@)[j] != did@ by {
        assert(texts(dids@)[j] == dids@[j]@);
    }
    false
}

/// The participants of a group other than the user: the DID keys whose
/// identities are listed as the group's members.
pub fn other_participants(participants: &Vec<String>, own: &str) -> (r: Vec<String>)
    ensures
        texts(r@) == kept(texts(participants@), |d: Seq<char>| d != own@),
{
    let n = participants.len();
    let mut r: Vec<String> = Vec::new();
    let ghost keep = |d: Seq<char>| d != own@;
    for i in 0..n
        invariant
            n == participants@.len(),
            keep == (|d: Seq<char>| d != own@),
            texts(r@) == kept(texts(participants@).subrange(0, i as int), keep),
    {
        let ghost prefix = texts(participants@).subrange(0, i + 1);
        assert(prefix.drop_last() =~= texts(participants@).subrange(0, i as int));
        assert(prefix.last() == participants@[i as int]@);
        if !text_eq(participants[i].as_str(), own) {
            r.push(participants[i].clone());
            assert(texts(r@) =~= texts(r@).drop_last().push(participants@[i as int]@));
        }
    }
    assert(texts(participants@).subrange(0, n as int) =~= texts(participants@));
    r
}

/// The test that keeps the friends whose DID key is not `did`.
pub open spec fn other_did(did: Seq<char>) -> spec_fn(FriendView) -> bool {
    |f: FriendView| f.did != did
}

/// The friends of `s` keyed by DID key, as a map from key to friend holds
/// them: one friend per key, the last one given under it. They stand in the
/// order of their last appearance.
pub open spec fn last_per_did(s: Seq<FriendView>) -> Seq<FriendView>
    decreases s.len(),
{
    if s.len() == 0 {
        Seq::empty()
    } else {
        kept(last_per_did(s.drop_last()), other_did(s.last().did)).push(s.last())
    }
}

/// No two friends of `s` share a DID key.
pub open spec fn distinct_dids(s: Seq<FriendView>) -> bool {
    forall|i: int, j: int| 0 <= i < j < s.len() ==> #[trigger] s[i].did != #[trigger] s[j].did
}

proof fn lemma_kept_distinct(s: Seq<FriendView>, keep: spec_fn(FriendView) -> bool)
    requires
        distinct_dids(s),
    ensures
        distinct_dids(kept(s, keep)),
    decreases s.len(),
{
    if s.len() > 0 {
        let p = s.drop_last();
        assert(distinct_dids(p)) by {
            assert forall|i: int, j: int| 0 <= i < j < p.len() implies #[trigger] p[i].did != #[trigger] p[j].did by {
                assert(p[i] == s[i] && p[j] == s[j]);
            }
        }
        lemma_kept_distinct(p, keep);
        let rest = kept(p, keep);
        if keep(s.last()) {
            let r = rest.push(s.last());
            assert forall|i: int, j: int| 0 <= i < j < r.len() implies #[trigger] r[i].did != #[trigger] r[j].did by {
                if j == rest.len() {
                    assert(rest.contains(r[i]));
                    lemma_kept_contains(p, keep, r[i]);
                    let k = choose|k: int| 0 <= k < p.len() && p[k] == r[i];
                    assert(p[k] == s[k]);
                    assert(s[k].did != s[s.len() - 1].did);
                } else {
                    assert(r[i] == rest[i] && r[j] == rest[j]);
                }
            }
        }
    }
}

/// Keeping one friend per DID key leaves no two friends with one key, and
/// every key given is kept, with the last friend given under it.
pub proof fn lemma_one_per_did(s: Seq<FriendView>)
    ensures
        distinct_dids(last_per_did(s)),
        forall|i: int|
            0 <= i < s.len() ==> exists|j: int|
                0 <= j < last_per_did(s).len() && #[trigger] last_per_did(s)[j].did == #[trigger] s[i].did,
        s.len() > 0 ==> last_per_did(s).last() == s.last(),
    decreases s.len(),
{
    if s.len() > 0 {
        let p = s.drop_last();
        let x = s.last();
        lemma_one_per_did(p);
        let q = last_per_did(p);
        let rest = kept(q, other_did(x.did));
        lemma_kept_distinct(q, other_did(x.did));
        lemma_kept_satisfies(q, other_did(x.did));
        let r = rest.push(x);
        assert(last_per_did(s) == r);
        assert forall|i: int, j: int| 0 <= i < j < r.len() implies #[trigger] r[i].did != #[trigger] r[j].did by {
            if j == rest.len() {
                assert(other_did(x.did)(rest[i]));
            } else {
                assert(r[i] == rest[i] && r[j] == rest[j]);
            }
        }
        assert forall|i: int| 0 <= i < s.len() implies exists|j: int|
            0 <= j < r.len() && #[trigger] r[j].did == #[trigger] s[i].did by {
            if s[i].did == x.did {
                assert(r[rest.len() as int].did == s[i].did);
            } else {
                assert(s[i] == p[i]);
                let j0 = choose|j: int| 0 <= j < q.len() && #[trigger] q[j].did == p[i].did;
                lemma_kept_keeps(q, other_did(x.did), j0);
                let j1 = choose|j1: int| 0 <= j1 < rest.len() && rest[j1] == q[j0];
                assert(r[j1] == rest[j1]);
            }
        }
    }
}

/// An element of `s` that passes the test is kept.
proof fn lemma_kept_keeps<T>(s: Seq<T>, keep: spec_fn(T) -> bool, i: int)
    requires
        0 <= i < s.len(),
        keep(s[i]),
    ensures
        exists|j: int| 0 <= j < kept(s, keep).len() && kept(s, keep)[j] == s[i],
    decreases s.len(),
{
    let rest = kept(s.drop_last(), keep);
    if i == s.len() - 1 {
        assert(kept(s, keep) == rest.push(s.last()));
        assert(kept(s, keep)[rest.len() as int] == s[i]);
    } else {
        assert(s[i] == s.drop_last()[i]);
        lemma_kept_keeps(s.drop_last(), keep, i);
        let j = choose|j: int| 0 <= j < rest.len() && rest[j] == s[i];
        if keep(s.last()) {
            assert(kept(s, keep) == rest.push(s.last()));
            assert(kept(s, keep)[j] == rest[j]);
        } else {
            assert(kept(s, keep) == rest);
        }
        assert(0 <= j < kept(s, keep).len() && kept(s, keep)[j] == s[i]);
    }
}

/// The friends of `list` whose DID key is not `did`, in order.
fn without_did(list: &Vec<Friend>, did: &str) -> (r: Vec<Friend>)
    ensures
        friend_views(r@) == kept(friend_views(list@), other_did(did@)),
{
    let n = list.len();
    let mut r: Vec<Friend> = Vec::new();
    for i in 0..n
        invariant
            n == list@.len(),
            friend_views(r@) == kept(friend_views(list@).subrange(0, i as int), other_did(did@)),
    {
        let ghost prefix = friend_views(list@).subrange(0, i + 1);
        assert(prefix.drop_last() =~= friend_views(list@).subrange(0, i as int));
        assert(prefix.last() == list@[i as int]@);
        if !text_eq(list[i].did.as_str(), did) {
            r.push(list[i].duplicate());
            assert(friend_views(r@) =~= friend_views(r@).drop_last().push(list@[i as int]@));
        }
    }
    assert(friend_views(list@).subrange(0, n as int) =~= friend_views(list@));
    r
}

/// The friends of `friends` with one friend per DID key: the last one given
/// under each key.
pub fn one_per_did(friends: &Vec<Friend>) -> (r: Vec<Friend>)
    ensures
        friend_views(r@) == last_per_did(friend_views(friends@)),
{
    let n = friends.len();
    let mut r: Vec<Friend> = Vec::new();
    for i in 0..n
        invariant
            n == friends@.len(),
            friend_views(r@) == last_per_did(friend_views(friends@).subrange(0, i as int)),
    {
        let ghost prefix = friend_views(friends@).subrange(0, i + 1);
        assert(prefix.drop_last() =~= friend_views(friends@).subrange(0, i as int));
        assert(prefix.last() == friends@[i as int]@);
        let mut rest = without_did(&r, friends[i].did.as_str());
        rest.push(friends[i].duplicate());
        assert(friend_views(rest@) =~= friend_views(rest@).drop_last().push(friends@[i as int]@));
        r = rest;
    }
    assert(friend_views(friends@).subrange(0, n as int) =~= friend_views(friends@));
    r
}

/// The friends that are not in the group, one per DID key (the last one
/// given under it), in order.
pub fn friends_not_in_group(friends: &Vec<Friend>, participants: &Vec<String>) -> (r: Vec<Friend>)
    ensures
        friend_views(r@) == kept(
            last_per_did(friend_views(friends@)),
            |f: FriendView| !texts(participants@).contains(f.did),
        ),
{
    let friends = one_per_did(friends);
    let n = friends.len();
    let mut r: Vec<Friend> = Vec::new();
    let ghost keep = |f: FriendView| !texts(participants@).contains(f.did);
    for i in 0..n
        invariant
            n == friends@.len(),
            keep == (|f: FriendView| !texts(participants@).contains(f.did)),
            friend_views(r@) == kept(friend_views(friends@).subrange(0, i as int), keep),
    {
        let ghost prefix = friend_views(friends@).subrange(0, i + 1);
        assert(prefix.drop_last() =~= friend_views(friends@).subrange(0, i as int));
        assert(prefix.last() == friends@[i as int]@);
        if !contains_text(participants, friends[i].did.as_str()) {
            r.push(friends[i].duplicate());
            assert(friend_views(r@) =~= friend_views(r@).drop_last().push(friends@[i as int]@));
        }
    }
    assert(friend_views(friends@).subrange(0, n as int) =~= friend_views(friends@));
    r
}

/// The friends whose user name contains `search`, ignoring ASCII case, in
/// the order given.
pub fn matching_search(list: &Vec<Friend>, search: &str) -> (r: Vec<Friend>)
    ensures
        friend_views(r@) == kept(
            friend_views(list@),
            |f: FriendView| contains_seq(lowered(f.username), lowered(search@)),
        ),
{
    let n = list.len();
    let mut r: Vec<Friend> = Vec::new();
    let ghost keep = |f: FriendView| contains_seq(lowered(f.username), lowered(search@));
    for i in 0..n
        invariant
            n == list@.len(),
            keep == (|f: FriendView| contains_seq(lowered(f.username), lowered(search@))),
            friend_views(r@) == kept(friend_views(list@).subrange(0, i as int), keep),
    {
        let ghost prefix = friend_views(list@).subrange(0, i + 1);
        assert(prefix.drop_last() =~= friend_views(list@).subrange(0, i as int));
        assert(prefix.last() == list@[i as int]@);
        if contains_ignore_ascii_case(list[i].username.as_str(), search) {
            r.push(list[i].duplicate());
            assert(friend_views(r@) =~= friend_views(r@).drop_last().push(list@[i as int]@));
        }
    }
    assert(friend_views(list@).subrange(0, n as int) =~= friend_views(list@));
    r
}


/// `a` comes before or equals `b` in the order of Rust's `String`:
/// lexicographic by character code (UTF-8 bytes compare in the same order).
pub open spec fn text_le(a: Seq<char>, b: Seq<char>) -> bool
    decreases a.len(),
{
    if a.len() == 0 {
        true
    } else if b.len() == 0 {
        false
    } else if a[0] != b[0] {
        (a[0] as u32) < (b[0] as u32)
    } else {
        text_le(a.drop_first(), b.drop_first())
    }
}

proof fn lemma_text_le_skip(a: Seq<char>, b: Seq<char>, i: int)
    requires
        0 <= i <= a.len(),
        i <= b.len(),
        forall|j: int| 0 <= j < i ==> a[j] == b[j],
    ensures
        text_le(a, b) == text_le(a.skip(i), b.skip(i)),
    decreases i,
{
    if i > 0 {
        lemma_text_le_skip(a.drop_first(), b.drop_first(), i - 1);
        assert(a.drop_first().skip(i - 1) =~= a.skip(i));
        assert(b.drop_first().skip(i - 1) =~= b.skip(i));
    } else {
        assert(a.skip(0) =~= a);
        assert(b.skip(0) =~= b);
    }
}

/// Whether `a` comes before or equals `b` in the order of `String`.
pub fn text_less_eq(a: &str, b: &str) -> (r: bool)
    ensures
        r == text_le(a@, b@),
{
    let la = a.unicode_len();
    let lb = b.unicode_len();
    let m = if la < lb { la } else { lb };
    for i in 0..m
        invariant
            la == a@.len(),
            lb == b@.len(),
            m <= la,
            m <= lb,
            forall|j: int| 0 <= j < i ==> a@[j] == b@[j],
    {
        let ca = a.get_char(i);
        let cb = b.get_char(i);
        if ca != cb {
            proof {
                lemma_text_le_skip(a@, b@, i as int);
                assert(a@.skip(i as int)[0] == ca);
                assert(b@.skip(i as int)[0] == cb);
            }
            return (ca as u32) < (cb as u32);
        }
    }
    proof {
        lemma_text_le_skip(a@, b@, m as int);
    }
    la <= lb
}

/// The first position in `s` whose user name comes after `x`'s, or the
/// length of `s` when there is none.
pub open spec fn first_after(s: Seq<FriendView>, x: FriendView) -> int
    decreases s.len(),
{
    if s.len() == 0 {
        0
    } else if !text_le(s[0].username, x.username) {
        0
    } else {
        first_after(s.drop_first(), x) + 1
    }
}

proof fn lemma_first_after(s: Seq<FriendView>, x: FriendView)
    ensures
        0 <= first_after(s, x) <= s.len(),
        first_after(s, x) < s.len() ==> !text_le(s[first_after(s, x)].username, x.username),
        forall|j: int| 0 <= j < first_after(s, x) ==> text_le(#[trigger] s[j].username, x.username),
    decreases s.len(),
{
    if s.len() > 0 && text_le(s[0].username, x.username) {
        lemma_first_after(s.drop_first(), x);
        assert forall|j: int| 0 <= j < first_after(s, x) implies text_le(#[trigger] s[j].username, x.username) by {
            if j > 0 {
                assert(s[j] == s.drop_first()[j - 1]);
            }
        }
    }
}

/// `s` sorted by user name, keeping the order of friends with equal names:
/// each friend in turn is placed after every friend already placed whose
/// name comes before or equals theirs. This is the order of a stable sort
/// such as `sort_by_key` on the user name.
pub open spec fn sorted_by_name(s: Seq<FriendView>) -> Seq<FriendView>
    decreases s.len(),
{
    if s.len() == 0 {
        Seq::empty()
    } else {
        let placed = sorted_by_name(s.drop_last());
        placed.insert(first_after(placed, s.last()), s.last())
    }
}

/// The friends of `list` sorted by user name, stably.
pub fn sort_by_username(list: &Vec<Friend>) -> (r: Vec<Friend>)
    ensures
        friend_views(r@) == sorted_by_name(friend_views(list@)),
{
    let n = list.len();
    let mut r: Vec<Friend> = Vec::new();
    for i in 0..n
        invariant
            n == list@.len(),
            friend_views(r@) == sorted_by_name(friend_views(list@).subrange(0, i as int)),
    {
        let ghost placed = friend_views(r@);
        let ghost x = list@[i as int]@;
        proof {
            lemma_first_after(placed, x);
        }
        let m = r.len();
        let mut pos: usize = 0;
        let mut placing = true;
        while placing
            invariant
                i < n,
                n == list@.len(),
                m == r@.len(),
                placed == friend_views(r@),
                x == list@[i as int]@,
                0 <= pos <= m,
                pos <= first_after(placed, x),
                !placing ==> pos == first_after(placed, x),
                0 <= first_after(placed, x) <= placed.len(),
                first_after(placed, x) < placed.len() ==> !text_le(placed[first_after(placed, x)].username, x.username),
                forall|j: int| 0 <= j < first_after(placed, x) ==> text_le(#[trigger] placed[j].username, x.username),
            decreases m - pos + (if placing { 1int } else { 0int }),
        {
            if pos < m {
                let before_or_equal = text_less_eq(r[pos].username.as_str(), list[i].username.as_str());
                assert(placed[pos as int] == r@[pos as int]@);
                if before_or_equal {
                    pos = pos + 1;
                } else {
                    assert(!text_le(placed[pos as int].username, x.username));
                    placing = false;
                }
            } else {
                placing = false;
            }
        }
        r.insert(pos, list[i].duplicate());
        let ghost prefix = friend_views(list@).subrange(0, i + 1);
        assert(prefix.drop_last() =~= friend_views(list@).subrange(0, i as int));
        assert(prefix.last() == x);
        assert(friend_views(r@) =~= placed.insert(pos as int, x));
    }
    assert(friend_views(list@).subrange(0, n as int) =~= friend_views(list@));
    r
}

proof fn lemma_text_le_total(a: Seq<char>, b: Seq<char>)
    ensures
        text_le(a, b) || text_le(b, a),
    decreases a.len(),
{
    if a.len() > 0 && b.len() > 0 {
        if a[0] == b[0] {
            lemma_text_le_total(a.drop_first(), b.drop_first());
        } else {
            let u = a[0] as u32;
            if u == (b[0] as u32) {
                vstd::utf8::char_u32_cast(a[0], u);
                vstd::utf8::char_u32_cast(b[0], u);
            }
        }
    }
}

proof fn lemma_text_le_trans(a: Seq<char>, b: Seq<char>, c: Seq<char>)
    requires
        text_le(a, b),
        text_le(b, c),
    ensures
        text_le(a, c),
    decreases a.len(),
{
    if a.len() > 0 && b.len() > 0 && c.len() > 0 && a[0] == b[0] && b[0] == c[0] {
        lemma_text_le_trans(a.drop_first(), b.drop_first(), c.drop_first());
    }
}

/// The friends of `s` are in order of their user names.
pub open spec fn sorted_names(s: Seq<FriendView>) -> bool {
    forall|i: int, j: int| 0 <= i < j < s.len() ==> text_le(#[trigger] s[i].username, #[trigger] s[j].username)
}

/// Sorting by user name orders the friends by their names and neither adds
/// nor loses anyone.
pub proof fn lemma_sorted_by_name(s: Seq<FriendView>)
    ensures
        sorted_names(sorted_by_name(s)),
        sorted_by_name(s).to_multiset() == s.to_multiset(),
    decreases s.len(),
{
    broadcast use vstd::seq_lib::to_multiset_insert, vstd::seq_lib::to_multiset_build;

    if s.len() > 0 {
        let p = sorted_by_name(s.drop_last());
        let x = s.last();
        lemma_sorted_by_name(s.drop_last());
        lemma_first_after(p, x);
        let k = first_after(p, x);
        let r = p.insert(k, x);
        assert(s =~= s.drop_last().push(x));
        assert(s.drop_last().push(x).to_multiset() == s.drop_last().to_multiset().insert(x));
        assert(r.to_multiset() == p.to_multiset().insert(x));
        assert(sorted_by_name(s) == r);
        assert forall|i: int, j: int| 0 <= i < j < r.len() implies text_le(#[trigger] r[i].username, #[trigger] r[j].username) by {
            if j < k {
                assert(r[i] == p[i] && r[j] == p[j]);
            } else if j == k {
                assert(r[i] == p[i]);
            } else if i > k {
                assert(r[i] == p[i - 1] && r[j] == p[j - 1]);
            } else if i == k {
                assert(r[j] == p[j - 1]);
                lemma_text_le_total(p[k].username, x.username);
                if j - 1 > k {
                    lemma_text_le_trans(x.username, p[k].username, p[j - 1].username);
                }
            } else {
                assert(r[i] == p[i] && r[j] == p[j - 1]);
            }
        }
    } else {
        assert(s =~= Seq::<FriendView>::empty());
    }
}

/// Whether the group editor lists friends to add or the current members.
#[derive(Clone, Copy, Debug, PartialEq, Eq, Structural)]
pub enum EditGroupAction {
    Add,
    Remove,
}

/// The friends the group editor lists: for adding, the friends not in the
/// group, one per DID key (the last one given under it); for removing, the members other than the user. Either list keeps
/// only the names that contain the search text, ignoring ASCII case, and is
/// sorted by user name.
pub open spec fn edit_group_listing(
    action: EditGroupAction,
    friends: Seq<FriendView>,
    members: Seq<FriendView>,
    participants: Seq<Seq<char>>,
    search: Seq<char>,
) -> Seq<FriendView> {
    let matches = |f: FriendView| contains_seq(lowered(f.username), lowered(search));
    sorted_by_name(
        match action {
            EditGroupAction::Add => kept(
                kept(last_per_did(friends), |f: FriendView| !participants.contains(f.did)),
                matches,
            ),
            EditGroupAction::Remove => kept(members, matches),
        },
    )
}

/// The friends listed by the group editor. `members` are the identities
/// of the group's participants other than the user.
pub fn edit_group_list(
    action: EditGroupAction,
    friends: &Vec<Friend>,
    members: &Vec<Friend>,
    participants: &Vec<String>,
    search: &str,
) -> (r: Vec<Friend>)
    ensures
        friend_views(r@) == edit_group_listing(
            action,
            friend_views(friends@),
            friend_views(members@),
            texts(participants@),
            search@,
        ),
{
    let chosen = match action {
        EditGroupAction::Add => {
            let outside = friends_not_in_group(friends, participants);
            matching_search(&outside, search)
        },
        EditGroupAction::Remove => matching_search(members, search),
    };
    sort_by_username(&chosen)
}

/// Everything `kept` keeps satisfies the test it keeps by.
pub proof fn lemma_kept_satisfies<T>(s: Seq<T>, keep: spec_fn(T) -> bool)
    ensures
        forall|i: int| 0 <= i < kept(s, keep).len() ==> keep(#[trigger] kept(s, keep)[i]),
    decreases s.len(),
{
    if s.len() > 0 {
        lemma_kept_satisfies(s.drop_last(), keep);
        let rest = kept(s.drop_last(), keep);
        if keep(s.last()) {
            assert forall|i: int| 0 <= i < kept(s, keep).len() implies keep(#[trigger] kept(s, keep)[i]) by {
                if i < rest.len() {
                    assert(kept(s, keep)[i] == rest[i]);
                }
            }
        }
    }
}

/// Every friend the group editor lists has a name that contains the search
/// text, ignoring ASCII case; every friend listed for adding is not a
/// participant of the group.
pub proof fn lemma_listing_respects_search(
    action: EditGroupAction,
    friends: Seq<FriendView>,
    members: Seq<FriendView>,
    participants: Seq<Seq<char>>,
    search: Seq<char>,
)
    ensures
        forall|i: int|
            0 <= i < edit_group_listing(action, friends, members, participants, search).len() ==> {
                let f = #[trigger] edit_group_listing(action, friends, members, participants, search)[i];
                &&& contains_seq(lowered(f.username), lowered(search))
                &&& action == EditGroupAction::Add ==> !participants.contains(f.did)
            },
{
    broadcast use vstd::seq_lib::to_multiset_contains;

    let matches = |f: FriendView| contains_seq(lowered(f.username), lowered(search));
    let outside = |f: FriendView| !participants.contains(f.did);
    let chosen = match action {
        EditGroupAction::Add => kept(kept(last_per_did(friends), outside), matches),
        EditGroupAction::Remove => kept(members, matches),
    };
    let listed = sorted_by_name(chosen);
    assert(listed == edit_group_listing(action, friends, members, participants, search));
    lemma_sorted_by_name(chosen);
    lemma_kept_satisfies(last_per_did(friends), outside);
    lemma_kept_satisfies(kept(last_per_did(friends), outside), matches);
    lemma_kept_satisfies(members, matches);
    assert forall|i: int| 0 <= i < listed.len() implies {
        let f = #[trigger] listed[i];
        &&& contains_seq(lowered(f.username), lowered(search))
        &&& action == EditGroupAction::Add ==> !participants.contains(f.did)
    } by {
        let f = listed[i];
        assert(listed.contains(f));
        assert(listed.to_multiset().count(f) > 0);
        assert(chosen.contains(f));
        let j = choose|j: int| 0 <= j < chosen.len() && chosen[j] == f;
        if action == EditGroupAction::Add {
            let k = kept(last_per_did(friends), outside);
            assert(matches(chosen[j]));
            lemma_kept_contains(k, matches, f);
            let m = choose|m: int| 0 <= m < k.len() && k[m] == f;
            assert(outside(k[m]));
        } else {
            assert(matches(chosen[j]));
        }
    }
}

/// What `kept` keeps was in the sequence it was taken from.
pub proof fn lemma_kept_contains<T>(s: Seq<T>, keep: spec_fn(T) -> bool, x: T)
    requires
        kept(s, keep).contains(x),
    ensures
        s.contains(x),
    decreases s.len(),
{
    if s.len() > 0 {
        let rest = kept(s.drop_last(), keep);
        if keep(s.last()) && x == s.last() {
            assert(s[s.len() - 1] == x);
        } else {
            let i = choose|i: int| 0 <= i < kept(s, keep).len() && kept(s, keep)[i] == x;
            if keep(s.last()) {
                assert(i < rest.len());
                assert(rest[i] == x);
            }
            assert(rest.contains(x));
            lemma_kept_contains(s.drop_last(), keep, x);
            let j = choose|j: int| 0 <= j < s.drop_last().len() && s.drop_last()[j] == x;
            assert(s[j] == x);
        }
    }
}

/// The button of a friend's row in the group editor: "add" rows always
/// have one, which adds the friend; other rows have one, which removes the
/// friend, only for the group's creator.
pub fn friend_row_button(add_or_remove: &str, am_i_group_creator: bool) -> (r: Option<EditGroupAction>)
    ensures
        r == if add_or_remove@ == "add"@ {
            Some(EditGroupAction::Add)
        } else if am_i_group_creator {
            Some(EditGroupAction::Remove)
        } else {
            None
        },
{
    if text_eq(add_or_remove, "add") {
        Some(EditGroupAction::Add)
    } else if am_i_group_creator {
        Some(EditGroupAction::Remove)
    } else {
        None
    }
}


/// The friends that are in the group, one per DID key (the last one given
/// under it), in order.
pub fn friends_in_group(friends: &Vec<Friend>, participants: &Vec<String>) -> (r: Vec<Friend>)
    ensures
        friend_views(r@) == kept(
            last_per_did(friend_views(friends@)),
            |f: FriendView| texts(participants@).contains(f.did),
        ),
{
    let friends = one_per_did(friends);
    let n = friends.len();
    let mut r: Vec<Friend> = Vec::new();
    let ghost keep = |f: FriendView| texts(participants@).contains(f.did);
    for i in 0..n
        invariant
            n == friends@.len(),
            keep == (|f: FriendView| texts(participants@).contains(f.did)),
            friend_views(r@) == kept(friend_views(friends@).subrange(0, i as int), keep),
    {
        let ghost prefix = friend_views(friends@).subrange(0, i + 1);
        assert(prefix.drop_last() =~= friend_views(friends@).subrange(0, i as int));
        assert(prefix.last() == friends@[i as int]@);
        if contains_text(participants, friends[i].did.as_str()) {
            r.push(friends[i].duplicate());
            assert(friend_views(r@) =~= friend_views(r@).drop_last().push(friends@[i as int]@));
        }
    }
    assert(friend_views(friends@).subrange(0, n as int) =~= friend_views(friends@));
    r
}

/// What `str::to_lowercase` gives: the text lowercased by Unicode's rules.
pub uninterp spec fn lowercase(s: Seq<char>) -> Seq<char>;

/// Calls `str::to_lowercase`. Its result is named `lowercase`; the Unicode
/// case mapping it applies is not stated.
#[verifier::external_body]
fn to_lowercase_text(s: &str) -> (r: String)
    ensures
        r@ == lowercase(s@),
{
    s.to_lowercase()
}

/// The search of the group editor's grouped list cuts the lowercased name after as
/// many bytes as the search text has; it can do so when the name is shorter
/// than that, or the cut falls between two characters.
pub open spec fn prefix_cut_ok(lowered_name: Seq<char>, search_len: nat) -> bool {
    encode_utf8(lowered_name).len() < search_len || is_char_boundary(encode_utf8(lowered_name), search_len as int)
}

/// Whether a lowercased name matches the search of the group editor's grouped list: it is
/// at least as long, in bytes, as the search text, and its first bytes, as
/// many as the search text has, read the lowercased search text.
pub open spec fn prefix_search_match(lowered_name: Seq<char>, search_len: nat, lowered_search: Seq<char>) -> bool {
    let b = encode_utf8(lowered_name);
    b.len() >= search_len && decode_utf8(b.subrange(0, search_len as int)) == lowered_search
}

/// The grouped list's test of a lowercased user name against the
/// search text, whose byte length and lowercased form are given.
pub fn name_matches_prefix(lowered_name: &str, search_len: usize, lowered_search: &str) -> (r: bool)
    requires
        prefix_cut_ok(lowered_name@, search_len as nat),
    ensures
        r == prefix_search_match(lowered_name@, search_len as nat, lowered_search@),
{
    broadcast use encode_utf8_valid_utf8, encode_utf8_decode_utf8;

    let n = lowered_name.as_bytes().len();
    if n < search_len {
        return false;
    }
    let (head, _rest) = lowered_name.split_at(search_len);
    text_eq(head, lowered_search)
}

/// The grouped list's test of a friend's name against the search
/// text: both are lowercased, and the name must begin with the search text,
/// counted in bytes of the search text as typed. Where that count would cut
/// the lowercased name inside a character, there is no answer (`None`).
pub fn friend_matches_prefix(username: &str, search: &str) -> (r: Option<bool>)
    ensures
        ({
            let name = lowercase(username@);
            let n = encode_utf8(search@).len();
            if prefix_cut_ok(name, n) {
                r == Some(prefix_search_match(name, n, lowercase(search@)))
            } else {
                r is None
            }
        }),
{
    let name = to_lowercase_text(username);
    let wanted = to_lowercase_text(search);
    let n = search.as_bytes().len();
    let name_len = name.as_str().as_bytes().len();
    if name_len >= n && !name.as_str().is_char_boundary(n) {
        return None;
    }
    Some(name_matches_prefix(name.as_str(), n, wanted.as_str()))
}

} // verus!
