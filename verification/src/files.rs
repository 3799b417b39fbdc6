//! File and folder names as the file browser shows them, and the selection
//! of stored files to send in a message.

use vstd::prelude::*;
use vstd::string::*;
use vstd::utf8::*;
use crate::text::{decimal, decimal_text, text_eq};

verus! {

/// The position of the last `c` in `s`, or -1 when `s` holds no `c`.
pub open spec fn last_index_of(s: Seq<char>, c: char) -> int
    decreases s.len(),
{
    if s.len() == 0 {
        -1
    } else if s.last() == c {
        s.len() - 1
    } else {
        last_index_of(s.drop_last(), c)
    }
}

/// The extension of a bare file name, as the documentation of
/// `std::path::Path::extension` describes it: none when the name holds no
/// '.', or when its only '.' is its first character; else the text after the
/// last '.'.
pub open spec fn name_extension(name: Seq<char>) -> Option<Seq<char>> {
    let i = last_index_of(name, '.');
    if i <= 0 {
        None
    } else {
        Some(name.subrange(i + 1, name.len() as int))
    }
}

/// A path that is one bare file name on every platform: no separator, no
/// drive prefix, and not the parent directory "..".
pub open spec fn bare_file_name(path: Seq<char>) -> bool {
    &&& !path.contains('/')
    &&& !path.contains('\\')
    &&& !path.contains(':')
    &&& path != ".."@
}

/// What `std::path::Path::extension` gives for a path, as text.
pub uninterp spec fn path_extension(path: Seq<char>) -> Option<Seq<char>>;

/// The plain value of an optional text.
pub open spec fn opt_text(o: Option<String>) -> Option<Seq<char>> {
    match o {
        Some(s) => Some(s@),
        None => None,
    }
}

/// Calls `std::path::Path::extension` on `path` and reads the result as
/// UTF-8 text. Its result is named `path_extension`. For a bare file name it
/// is stated as std's documentation states it (`name_extension`); how std
/// splits a path with separators or prefixes into components is not stated.
#[verifier::external_body]
fn std_path_extension(path: &str) -> (r: Option<String>)
    ensures
        opt_text(r) == path_extension(path@),
        bare_file_name(path@) ==> opt_text(r) == name_extension(path@),
{
    let ext = std::path::Path::new(path).extension()?;
    Some(ext.to_str()?.to_string())
}

/// The text of an optional text, or "" when there is none.
pub open spec fn text_or_empty(o: Option<String>) -> Seq<char> {
    match o {
        Some(s) => s@,
        None => Seq::empty(),
    }
}

/// "." followed by an extension, or "" when there is none.
pub open spec fn dotted(ext: Option<Seq<char>>) -> Seq<char> {
    match ext {
        Some(e) => "."@ + e,
        None => Seq::empty(),
    }
}

/// An extension as it is appended to a file name: with a leading '.', or
/// empty when there is no extension.
pub fn dotted_extension(ext: Option<String>) -> (r: String)
    ensures
        r@ == dotted(opt_text(ext)),
{
    match ext {
        Some(e) => {
            let mut r = String::from_str(".");
            r.append(e.as_str());
            r
        },
        None => String::new(),
    }
}

/// The extension of `file_name` with its leading '.', or "" when it has
/// none (no '.' is added to a name without an extension).
pub fn get_file_extension(file_name: String) -> (r: String)
    ensures
        r@ == dotted(path_extension(file_name@)),
        bare_file_name(file_name@) ==> r@ == dotted(name_extension(file_name@)),
{
    dotted_extension(std_path_extension(file_name.as_str()))
}


/// The bytes of a text in UTF-8.
pub open spec fn utf8(s: Seq<char>) -> Seq<u8> {
    encode_utf8(s)
}

/// A folder name as the file browser shows it. A name longer than fifteen
/// bytes is shortened to its first twelve bytes, "..." and its last three
/// bytes, unless its twelfth byte ends inside a character; then it is shown
/// whole.
pub open spec fn shortened_name(name: Seq<char>) -> Seq<char> {
    let b = utf8(name);
    if b.len() > 15 && is_char_boundary(b, 12) {
        decode_utf8(b.subrange(0, 12)) + "..."@ + decode_utf8(b.subrange(b.len() - 3, b.len() as int))
    } else {
        name
    }
}

/// The names on which shortening would cut through a character at the end:
/// longer than fifteen bytes, cut cleanly after twelve bytes, but not three
/// bytes before the end.
pub open spec fn shortening_cuts_last_char(name: Seq<char>) -> bool {
    let b = utf8(name);
    b.len() > 15 && is_char_boundary(b, 12) && !is_char_boundary(b, b.len() - 3)
}

/// The folder's name (empty when it has none) and the name as it is shown.
pub fn get_text(text: Option<String>) -> (r: (String, String))
    requires
        !shortening_cuts_last_char(text_or_empty(text)),
    ensures
        r.0@ == text_or_empty(text),
        r.1@ == shortened_name(r.0@),
{
    broadcast use encode_utf8_valid_utf8, encode_utf8_decode_utf8;

    let folder_name = match text {
        Some(t) => t,
        None => String::new(),
    };
    assert(folder_name@ == text_or_empty(text));
    let ghost b = encode_utf8(folder_name@);
    let name: &str = folder_name.as_str();
    assert(name.spec_bytes() == b);
    let n = name.as_bytes().len();
    assert(n == b.len());
    if n > 15 && name.is_char_boundary(12) {
        let (head, _rest) = name.split_at(12);
        let (_front, tail) = name.split_at(n - 3);
        assert(head@ == decode_utf8(b.subrange(0, 12)));
        assert(tail@ == decode_utf8(b.subrange(b.len() - 3, b.len() as int)));
        let mut formatted = String::from_str(head);
        formatted.append("...");
        formatted.append(tail);
        (folder_name, formatted)
    } else {
        let formatted = folder_name.clone();
        (folder_name, formatted)
    }
}


/// A bare file name without any '.' has no extension, so nothing is
/// appended to it.
pub proof fn lemma_no_dot_no_extension(name: Seq<char>)
    requires
        !name.contains('.'),
    ensures
        name_extension(name) is None,
        dotted(name_extension(name)) == Seq::<char>::empty(),
    decreases name.len(),
{
    if name.len() > 0 {
        assert(name.last() != '.') by {
            assert(name[name.len() - 1] == name.last());
        }
        assert(!name.drop_last().contains('.')) by {
            assert forall|j: int| 0 <= j < name.drop_last().len() implies name.drop_last()[j] != '.' by {
                assert(name.drop_last()[j] == name[j]);
            }
        }
        lemma_no_dot_no_extension(name.drop_last());
    }
}

/// A shown extension always starts with '.'.
pub proof fn lemma_dotted_starts_with_dot(ext: Option<Seq<char>>)
    ensures
        dotted(ext).len() == 0 || dotted(ext)[0] == '.',
{
    reveal_strlit(".");
    if let Some(e) = ext {
        assert(dotted(ext)[0] == ("."@ + e)[0]);
    }
}

/// The new name of a renamed file: the text entered, followed by the file's
/// extension. A rename happens when the entry is valid or was left with the
/// Escape key; otherwise there is none.
pub fn renamed_file(entered: &str, is_valid: bool, escape_pressed: bool, extension: &str) -> (r:
    Option<String>)
    ensures
        r matches Some(name) ==> name@ == entered@ + extension@,
        r is Some <==> (is_valid || escape_pressed),
{
    if is_valid || escape_pressed {
        let mut name = String::from_str(entered);
        name.append(extension);
        Some(name)
    } else {
        None
    }
}

/// Whether a click on a file presses it: unless the modifier keys held are
/// exactly Control. `modifiers` and `control` are sets of modifier keys as
/// bits.
pub fn file_click_presses(modifiers: u32, control: u32) -> (r: bool)
    ensures
        r == (modifiers != control),
{
    modifiers != control
}

/// Where a file to be sent is stored: in the user's storage under a path,
/// or on the local disk.
pub enum Location {
    Constellation { path: String },
    Disk { path: String },
}

/// A location as plain values.
pub enum LocationView {
    Constellation { path: Seq<char> },
    Disk { path: Seq<char> },
}

impl View for Location {
    type V = LocationView;

    open spec fn view(&self) -> LocationView {
        match self {
            Location::Constellation { path } => LocationView::Constellation { path: path@ },
            Location::Disk { path } => LocationView::Disk { path: path@ },
        }
    }
}

/// The locations of a list as plain values.
pub open spec fn locations(v: Seq<Location>) -> Seq<LocationView> {
    v.map_values(|l: Location| l@)
}

/// The path under which a selected file is looked up for toggling: its
/// storage path, or "" for a file on disk.
pub open spec fn toggle_key(l: LocationView) -> Seq<char> {
    match l {
        LocationView::Constellation { path } => path,
        LocationView::Disk { .. } => Seq::empty(),
    }
}

/// The first position in `s` whose toggle key is `path`, or -1.
pub open spec fn first_with_key(s: Seq<LocationView>, path: Seq<char>) -> int
    decreases s.len(),
{
    if s.len() == 0 {
        -1
    } else if toggle_key(s[0]) == path {
        0
    } else {
        let rest = first_with_key(s.drop_first(), path);
        if rest < 0 {
            -1
        } else {
            rest + 1
        }
    }
}

proof fn lemma_first_with_key(s: Seq<LocationView>, path: Seq<char>)
    ensures
        -1 <= first_with_key(s, path) < s.len(),
        first_with_key(s, path) >= 0 ==> toggle_key(s[first_with_key(s, path)]) == path,
        forall|j: int|
            0 <= j < s.len() && (first_with_key(s, path) < 0 || j < first_with_key(s, path))
                ==> toggle_key(#[trigger] s[j]) != path,
    decreases s.len(),
{
    if s.len() > 0 {
        lemma_first_with_key(s.drop_first(), path);
        assert forall|j: int|
            0 <= j < s.len() && (first_with_key(s, path) < 0 || j < first_with_key(s, path))
                implies toggle_key(#[trigger] s[j]) != path by {
            if j > 0 {
                assert(s[j] == s.drop_first()[j - 1]);
            }
        }
    }
}

/// The selection after a stored file at `path` is toggled: a selected file
/// is unselected, and an unselected one is added at the end while fewer
/// than `max_files` are selected.
pub open spec fn toggled(s: Seq<LocationView>, path: Seq<char>, max_files: nat) -> Seq<LocationView> {
    let i = first_with_key(s, path);
    if i >= 0 {
        s.remove(i)
    } else if s.len() < max_files {
        s.push(LocationView::Constellation { path })
    } else {
        s
    }
}

/// Selects the stored file at `file_path` for sending, or unselects it when
/// it is already selected. At most `max_files` files are selected.
pub fn add_remove_file_to_send(selected: &mut Vec<Location>, file_path: String, max_files: usize)
    ensures
        locations(final(selected)@) == toggled(locations(old(selected)@), file_path@, max_files as nat),
{
    let ghost before = locations(selected@);
    proof {
        lemma_first_with_key(before, file_path@);
    }
    let n = selected.len();
    let mut found: Option<usize> = None;
    for i in 0..n
        invariant
            n == selected@.len(),
            before == locations(selected@),
            found is None ==> forall|j: int| 0 <= j < i ==> toggle_key(#[trigger] before[j]) != file_path@,
            found matches Some(k) ==> k == first_with_key(before, file_path@),
            -1 <= first_with_key(before, file_path@) < before.len(),
            first_with_key(before, file_path@) >= 0 ==> toggle_key(before[first_with_key(before, file_path@)]) == file_path@,
            forall|j: int|
                0 <= j < before.len() && (first_with_key(before, file_path@) < 0 || j < first_with_key(before, file_path@))
                    ==> toggle_key(#[trigger] before[j]) != file_path@,
    {
        if found.is_none() {
            let matches = match &selected[i] {
                Location::Constellation { path } => *path == file_path,
                Location::Disk { .. } => file_path.as_str().unicode_len() == 0,
            };
            assert(before[i as int] == selected@[i as int]@);
            if matches {
                assert(toggle_key(before[i as int]) == file_path@);
                found = Some(i);
            }
        }
    }
    match found {
        Some(k) => {
            selected.remove(k);
            assert(locations(selected@) =~= before.remove(k as int));
        },
        None => {
            if selected.len() < max_files {
                selected.push(Location::Constellation { path: file_path });
                assert(locations(selected@) =~= before.push(LocationView::Constellation { path: file_path@ }));
            }
        },
    }
}

/// Toggling never takes the selection past its bound.
pub proof fn lemma_toggle_within_bound(s: Seq<LocationView>, path: Seq<char>, max_files: nat)
    requires
        s.len() <= max_files,
    ensures
        toggled(s, path, max_files).len() <= max_files,
{
    lemma_first_with_key(s, path);
}

/// Selecting a stored file that is not selected, while there is room, and
/// toggling it again gives the selection back.
pub proof fn lemma_toggle_twice(s: Seq<LocationView>, path: Seq<char>, max_files: nat)
    requires
        first_with_key(s, path) < 0,
        s.len() < max_files,
    ensures
        toggled(toggled(s, path, max_files), path, max_files) == s,
{
    let t = s.push(LocationView::Constellation { path });
    lemma_first_with_key(s, path);
    lemma_first_with_key(t, path);
    assert(toggled(s, path, max_files) == t);
    assert(toggle_key(t[s.len() as int]) == path);
    if first_with_key(t, path) < s.len() {
        let k = first_with_key(t, path);
        assert(t[k] == s[k]);
    }
    assert(first_with_key(t, path) == s.len());
    assert(t.remove(s.len() as int) =~= s);
}

/// A stored file at `path` is among the selected ones.
pub open spec fn is_selected(s: Seq<LocationView>, path: Seq<char>) -> bool {
    exists|i: int| 0 <= i < s.len() && #[trigger] s[i] == (LocationView::Constellation { path })
}

/// The state of the check box of the stored file at `file_path`: disabled
/// once `max_files` files are selected, and checked when the file is one of
/// them.
pub fn file_checkbox_state(selected: &Vec<Location>, file_path: &str, max_files: usize) -> (r: (bool, bool))
    ensures
        r.0 == (selected@.len() >= max_files),
        r.1 == is_selected(locations(selected@), file_path@),
{
    let n = selected.len();
    let ghost s = locations(selected@);
    for i in 0..n
        invariant
            n == selected@.len(),
            s == locations(selected@),
            forall|j: int| 0 <= j < i ==> s[j] != (LocationView::Constellation { path: file_path@ }),
    {
        let hit = match &selected[i] {
            Location::Constellation { path } => text_eq(path.as_str(), file_path),
            Location::Disk { .. } => false,
        };
        assert(s[i as int] == selected@[i as int]@);
        if hit {
            assert(s[i as int] == (LocationView::Constellation { path: file_path@ }));
            return (n >= max_files, true);
        }
    }
    (n >= max_files, false)
}

/// The count of selected files against the bound, as "count/bound".
pub fn selection_amount_text(count: usize, max_files: usize) -> (r: String)
    ensures
        r@ == decimal(count as nat) + "/"@ + decimal(max_files as nat),
{
    let mut r = decimal_text(count as u64);
    r.append("/");
    let m = decimal_text(max_files as u64);
    r.append(m.as_str());
    r
}

/// The storage paths of the selected files, in order, without the files on
/// disk.
pub open spec fn stored_paths(s: Seq<LocationView>) -> Seq<Seq<char>>
    decreases s.len(),
{
    if s.len() == 0 {
        Seq::empty()
    } else {
        let rest = stored_paths(s.drop_last());
        match s.last() {
            LocationView::Constellation { path } => rest.push(path),
            LocationView::Disk { .. } => rest,
        }
    }
}

/// Texts joined with a separator between each two.
pub open spec fn joined(parts: Seq<Seq<char>>, sep: Seq<char>) -> Seq<char>
    decreases parts.len(),
{
    if parts.len() == 0 {
        Seq::empty()
    } else if parts.len() == 1 {
        parts[0]
    } else {
        joined(parts.drop_last(), sep) + sep + parts.last()
    }
}

/// The total length of `parts`.
pub open spec fn total_len(parts: Seq<Seq<char>>) -> nat
    decreases parts.len(),
{
    if parts.len() == 0 {
        0
    } else {
        total_len(parts.drop_last()) + parts.last().len()
    }
}

/// A joined text is as long as its parts together and one separator between
/// each two of them.
proof fn lemma_joined_len(parts: Seq<Seq<char>>, sep: Seq<char>)
    requires
        parts.len() > 0,
    ensures
        joined(parts, sep).len() == total_len(parts) + sep.len() * (parts.len() - 1),
    decreases parts.len(),
{
    if parts.len() == 1 {
        assert(parts.drop_last().len() == 0);
    } else {
        lemma_joined_len(parts.drop_last(), sep);
        assert(sep.len() * (parts.len() - 1) == sep.len() * (parts.len() - 2) + sep.len()) by (nonlinear_arith);
    }
}

/// The text of the selected stored paths: selecting one more stored file
/// makes its path the whole text when no stored file was selected, and
/// appends ", " and its path otherwise; selecting a file on disk leaves the
/// text as it was. The text is as long as the stored paths together and
/// one ", " between each two of them.
pub proof fn lemma_selected_text_separators(s: Seq<LocationView>, path: Seq<char>)
    ensures
        stored_paths(s).len() == 0 ==> joined(stored_paths(s), ", "@) == Seq::<char>::empty(),
        stored_paths(s).len() == 0 ==> joined(
            stored_paths(s.push(LocationView::Constellation { path })),
            ", "@,
        ) == path,
        stored_paths(s).len() > 0 ==> joined(
            stored_paths(s.push(LocationView::Constellation { path })),
            ", "@,
        ) == joined(stored_paths(s), ", "@) + ", "@ + path,
        joined(stored_paths(s.push(LocationView::Disk { path })), ", "@) == joined(stored_paths(s), ", "@),
        stored_paths(s).len() > 0 ==> joined(stored_paths(s), ", "@).len() == total_len(stored_paths(s)) + 2 * (
        stored_paths(s).len() - 1),
{
    reveal_strlit(", ");
    let c = s.push(LocationView::Constellation { path });
    let d = s.push(LocationView::Disk { path });
    assert(c.drop_last() =~= s);
    assert(d.drop_last() =~= s);
    assert(stored_paths(c) == stored_paths(s).push(path));
    assert(stored_paths(c).drop_last() =~= stored_paths(s));
    if stored_paths(s).len() > 0 {
        lemma_joined_len(stored_paths(s), ", "@);
    }
}

/// The storage paths of the selected files, joined by ", ".
pub fn selected_paths_text(selected: &Vec<Location>) -> (r: String)
    ensures
        r@ == joined(stored_paths(locations(selected@)), ", "@),
{
    let n = selected.len();
    let mut r = String::new();
    let mut any = false;
    let ghost s = locations(selected@);
    for i in 0..n
        invariant
            n == selected@.len(),
            s == locations(selected@),
            any == (stored_paths(s.subrange(0, i as int)).len() > 0),
            r@ == joined(stored_paths(s.subrange(0, i as int)), ", "@),
    {
        assert(s.subrange(0, i + 1).drop_last() =~= s.subrange(0, i as int));
        assert(s[i as int] == selected@[i as int]@);
        match &selected[i] {
            Location::Constellation { path } => {
                let ghost prev = stored_paths(s.subrange(0, i as int));
                assert(stored_paths(s.subrange(0, i + 1)) == prev.push(path@));
                assert(prev.push(path@).drop_last() =~= prev);
                if any {
                    r.append(", ");
                }
                r.append(path.as_str());
                any = true;
            },
            Location::Disk { .. } => {},
        }
    }
    assert(s.subrange(0, n as int) =~= s);
    r
}



/// The accessible label of a file or folder element: the label given, or
/// "" when there is none.
pub fn get_aria_label(aria_label: Option<String>) -> (r: String)
    ensures
        r@ == text_or_empty(aria_label),
{
    match aria_label {
        Some(l) => l,
        None => String::new(),
    }
}

} // verus!
