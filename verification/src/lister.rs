//! The directory lister: which path to list, and the one line that is printed
//! for it.

use crate::highlight::{bold_blue, highlighted, lemma_highlighted_differs};
use crate::text::texts;
use vstd::prelude::*;

verus! {

/// Why the lister gives up before printing anything.
#[derive(Clone, Copy, Debug, PartialEq, Eq, Structural)]
pub enum ListError {
    /// More than one path was given, or not even the program's own name.
    InvalidArguments,
}

impl ListError {
    /// The text of the diagnostic for this error.
    pub open spec fn message_text(self) -> Seq<char> {
        match self {
            ListError::InvalidArguments => "Error: invalid number of arguments!"@,
        }
    }

    /// The diagnostic for this error.
    pub fn message(&self) -> (text: String)
        ensures
            text@ == self.message_text(),
    {
        match self {
            ListError::InvalidArguments => "Error: invalid number of arguments!".to_owned(),
        }
    }
}

/// One child of the listed directory.
#[derive(Clone, Debug, PartialEq, Eq)]
pub struct Entry {
    /// The child's base name.
    pub name: String,
    /// Whether the child is itself a directory.
    pub is_dir: bool,
}

/// An entry as a plain value.
pub struct EntryView {
    pub name: Seq<char>,
    pub is_dir: bool,
}

impl View for Entry {
    type V = EntryView;

    open spec fn view(&self) -> EntryView {
        EntryView { name: self.name@, is_dir: self.is_dir }
    }
}

/// What was found at the path that is to be listed.
#[derive(Clone, Debug, PartialEq, Eq)]
pub enum Target {
    /// A directory, with its direct children in the order in which they were
    /// read.
    Directory(Vec<Entry>),
    /// Anything else, with the path as it was given.
    File(String),
}

/// The views of a sequence of entries.
pub open spec fn entry_views(entries: Seq<Entry>) -> Seq<EntryView> {
    entries.map_values(|e: Entry| e@)
}

/// A target as a plain value.
pub enum TargetView {
    Directory(Seq<EntryView>),
    File(Seq<char>),
}

impl View for Target {
    type V = TargetView;

    open spec fn view(&self) -> TargetView {
        match self {
            Target::Directory(entries) => TargetView::Directory(entry_views(entries@)),
            Target::File(path) => TargetView::File(path@),
        }
    }
}

/// The path that is listed when none is given: the current directory.
pub open spec fn default_path() -> Seq<char> {
    seq!['.']
}

/// The path named by the command line `args`, whose first item is the
/// program's own name: the one argument, or the current directory when there
/// is none. Any other number of arguments names no path.
pub open spec fn chosen_path(args: Seq<Seq<char>>) -> Option<Seq<char>> {
    if args.len() == 1 {
        Some(default_path())
    } else if args.len() == 2 {
        Some(args[1])
    } else {
        None
    }
}

/// What stands between two names of a listing: four spaces.
pub open spec fn separator() -> Seq<char> {
    seq![' ', ' ', ' ', ' ']
}

/// The names, in order, with the separator between each two of them.
pub open spec fn joined(names: Seq<Seq<char>>) -> Seq<char>
    decreases names.len(),
{
    if names.len() == 0 {
        Seq::empty()
    } else if names.len() == 1 {
        names[0]
    } else {
        joined(names.drop_last()) + separator() + names.last()
    }
}

/// Where the name at `index` begins in the joined line: behind the names
/// before it and a separator for each of them.
pub open spec fn place(names: Seq<Seq<char>>, index: int) -> int
    decreases index,
{
    if index <= 0 {
        0
    } else {
        place(names, index - 1) + names[index - 1].len() + separator().len()
    }
}

/// How `entry` is shown: a directory by its name highlighted where colours
/// are in use; a file, and everything where they are not, by its bare name.
pub open spec fn shown_as(entry: EntryView, in_colour: bool) -> Seq<char> {
    if entry.is_dir && in_colour {
        highlighted(entry.name)
    } else {
        entry.name
    }
}

/// How the entries are shown, in order.
pub open spec fn names_shown(entries: Seq<EntryView>, in_colour: bool) -> Seq<Seq<char>> {
    entries.map_values(|e: EntryView| shown_as(e, in_colour))
}

/// Whether `shown` is a way to show `entry`, with colours in use or without.
pub open spec fn shows(entry: EntryView, shown: Seq<char>) -> bool {
    shown == shown_as(entry, true) || shown == shown_as(entry, false)
}

/// Whether `names` shows `entries` one for one, in the same order.
pub open spec fn shows_all(entries: Seq<EntryView>, names: Seq<Seq<char>>) -> bool {
    &&& names.len() == entries.len()
    &&& forall|i: int| 0 <= i < entries.len() ==> shows(entries[i], #[trigger] names[i])
}

/// Whether `line` is a listing of `entries`: a way to show each of them,
/// joined in their order.
pub open spec fn is_listing(entries: Seq<EntryView>, line: Seq<char>) -> bool {
    exists|names: Seq<Seq<char>>| shows_all(entries, names) && line == joined(names)
}

/// Whether `line` may be printed for `target`: for a directory a listing of
/// its entries, for anything else the path and nothing but the path.
pub open spec fn is_output(target: TargetView, line: Seq<char>) -> bool {
    match target {
        TargetView::Directory(entries) => is_listing(entries, line),
        TargetView::File(path) => line == path,
    }
}

/// Where a name begins depends only on the names before it.
proof fn lemma_place_of_front(names: Seq<Seq<char>>, index: int)
    requires
        0 <= index < names.len(),
    ensures
        place(names.drop_last(), index) == place(names, index),
    decreases index,
{
    if index > 0 {
        lemma_place_of_front(names, index - 1);
    }
}

/// The joined line ends with its last name.
proof fn lemma_joined_len(names: Seq<Seq<char>>)
    requires
        names.len() > 0,
    ensures
        joined(names).len() == place(names, names.len() - 1) + names.last().len(),
    decreases names.len(),
{
    if names.len() > 1 {
        let front = names.drop_last();
        lemma_joined_len(front);
        lemma_place_of_front(names, names.len() - 2);
    }
}

/// The joined line is made of the names and nothing else: each name stands
/// at its place, whole and in order; a separator stands between it and the
/// next name; and the line ends with the last name. So every name is there
/// exactly once, and the line is as long as all names and the separators
/// between them together.
pub proof fn lemma_joined_holds_each_name(names: Seq<Seq<char>>, index: int)
    requires
        0 <= index < names.len(),
    ensures
        ({
            let line = joined(names);
            let from = place(names, index);
            let to = from + names[index].len();
            &&& 0 <= from <= to <= line.len()
            &&& line.subrange(from, to) == names[index]
            &&& index + 1 < names.len() ==> {
                &&& place(names, index + 1) == to + separator().len()
                &&& place(names, index + 1) <= line.len()
                &&& line.subrange(to, place(names, index + 1)) == separator()
            }
            &&& index + 1 == names.len() ==> to == line.len()
        }),
    decreases names.len(),
{
    let line = joined(names);
    let from = place(names, index);
    let to = from + names[index].len();
    lemma_joined_len(names);
    if names.len() == 1 {
        assert(line.subrange(from, to) =~= names[index]);
    } else {
        let front = names.drop_last();
        let head = joined(front);
        lemma_joined_len(front);
        lemma_place_of_front(names, names.len() - 2);
        assert(line == head + separator() + names.last());
        if index + 1 == names.len() {
            assert(line.subrange(from, to) =~= names[index]);
        } else {
            lemma_joined_holds_each_name(front, index);
            lemma_place_of_front(names, index);
            assert(front[index] == names[index]);
            assert(line.subrange(from, to) =~= head.subrange(from, to));
            if index + 2 == names.len() {
                assert(line.subrange(to, place(names, index + 1)) =~= separator());
            } else {
                lemma_place_of_front(names, index + 1);
                assert(line.subrange(to, place(names, index + 1)) =~= head.subrange(
                    to,
                    place(names, index + 1),
                ));
            }
        }
    }
}

/// Only directories are set apart: in colour a directory never looks like
/// its bare name, and so never like a file of the same name; a file looks
/// the same with colours and without.
pub proof fn lemma_directories_stand_out(entry: EntryView)
    ensures
        entry.is_dir ==> shown_as(entry, true) != entry.name,
        !entry.is_dir ==> shown_as(entry, true) == entry.name,
        shown_as(entry, false) == entry.name,
{
    lemma_highlighted_differs(entry.name);
}

/// The entries as they are shown in colour, joined in their order, are a
/// listing of them, and so are the entries as they are shown without.
pub proof fn lemma_listing_in_one_style(entries: Seq<EntryView>, in_colour: bool)
    ensures
        is_listing(entries, joined(names_shown(entries, in_colour))),
{
    assert(shows_all(entries, names_shown(entries, in_colour)));
}

/// Entries that are all files have one listing only: their bare names,
/// joined in their order.
pub proof fn lemma_listing_of_files(entries: Seq<EntryView>, line: Seq<char>)
    requires
        is_listing(entries, line),
        forall|i: int| 0 <= i < entries.len() ==> !entries[i].is_dir,
    ensures
        line == joined(names_shown(entries, false)),
        line == joined(names_shown(entries, true)),
{
    let names = choose|names: Seq<Seq<char>>| shows_all(entries, names) && line == joined(names);
    assert forall|i: int| 0 <= i < names.len() implies names[i] == entries[i].name by {
        assert(shows(entries[i], names[i]));
    }
    assert(names =~= names_shown(entries, false));
    assert(names =~= names_shown(entries, true));
}

/// Picks the path to list from the command line, whose first item is the
/// program's own name.
pub fn target_path(args: &Vec<String>) -> (path: Result<String, ListError>)
    ensures
        match chosen_path(texts(args@)) {
            Some(chosen) => path matches Ok(p) && p@ == chosen,
            None => path == Err::<String, ListError>(ListError::InvalidArguments),
        },
        args.len() > 2 ==> path is Err,
{
    if args.len() == 1 {
        proof {
            reveal_strlit(".");
            assert("."@ =~= default_path());
        }
        Ok(".".to_owned())
    } else if args.len() == 2 {
        Ok(args[1].clone())
    } else {
        Err(ListError::InvalidArguments)
    }
}

/// How one entry is shown: a directory in bold blue where colours are in
/// use, everything else by its bare name.
pub fn format_entry(entry: &Entry) -> (shown: String)
    ensures
        shows(entry@, shown@),
        !entry.is_dir ==> shown@ == entry.name@,
{
    if entry.is_dir {
        bold_blue(entry.name.as_str())
    } else {
        entry.name.clone()
    }
}

/// How each entry is shown, in the entries' order.
pub fn format_entries(entries: &Vec<Entry>) -> (names: Vec<String>)
    ensures
        shows_all(entry_views(entries@), texts(names@)),
{
    let mut names: Vec<String> = Vec::new();
    let mut i: usize = 0;
    while i < entries.len()
        invariant
            i <= entries.len(),
            names.len() == i,
            forall|k: int| 0 <= k < i ==> shows(entries[k]@, #[trigger] names[k]@),
        decreases entries.len() - i,
    {
        let shown = format_entry(&entries[i]);
        names.push(shown);
        i += 1;
    }
    names
}

/// Joins names that are already formatted into one line, four spaces
/// between each two and none behind the last.
pub fn join_names(names: &Vec<String>) -> (line: String)
    ensures
        line@ == joined(texts(names@)),
{
    let mut line = String::new();
    let mut i: usize = 0;
    while i < names.len()
        invariant
            i <= names.len(),
            line@ == joined(texts(names@).take(i as int)),
        decreases names.len() - i,
    {
        let ghost before = texts(names@).take(i as int);
        let ghost after = texts(names@).take(i + 1);
        if i > 0 {
            line.append("    ");
        }
        line.append(names[i].as_str());
        proof {
            reveal_strlit("    ");
            assert("    "@ =~= separator());
            assert(after.drop_last() =~= before);
            assert(after.last() == names[i as int]@);
        }
        i += 1;
    }
    proof {
        assert(texts(names@).take(names.len() as int) =~= texts(names@));
    }
    line
}

/// The line that the lister prints for what it found: for a directory its
/// entries, each shown by `format_entry`, in the order given and joined by
/// `join_names`; for anything else the path, unchanged.
pub fn list_dir(target: &Target) -> (line: String)
    ensures
        is_output(target@, line@),
        target matches Target::File(path) ==> line@ == path@,
{
    match target {
        Target::Directory(entries) => {
            let names = format_entries(entries);
            join_names(&names)
        },
        Target::File(path) => path.clone(),
    }
}

} // verus!
