//! A read-only documentation lookup table: dotted item paths mapped to
//! optional documentation strings, built once from a fixed entry list.

use vstd::prelude::*;

verus! {

/// The queried path has no entry in the table. This is the sole error of
/// the library; it carries no payload, since presence or absence of the
/// path is the only signal.
#[derive(Clone, Copy, Debug, PartialEq, Eq, Structural)]
pub struct NotFound;

/// The documentation of one entry, as a sequence of characters; `None`
/// records an entry that exists but is undocumented.
pub open spec fn doc_view(doc: Option<String>) -> Option<Seq<char>> {
    match doc {
        Some(text) => Some(text@),
        None => None,
    }
}

/// One entry of the backing list: its path and its documentation, as views.
pub open spec fn entry_view(entry: (String, Option<String>)) -> (Seq<char>, Option<Seq<char>>) {
    (entry.0@, doc_view(entry.1))
}

/// The backing list, entry by entry.
pub open spec fn entries_view(
    entries: Seq<(String, Option<String>)>,
) -> Seq<(Seq<char>, Option<Seq<char>>)> {
    entries.map_values(|entry: (String, Option<String>)| entry_view(entry))
}

/// The table that inserting the entries one by one builds: on duplicate
/// paths the later entry wins.
pub open spec fn table_of(
    entries: Seq<(Seq<char>, Option<Seq<char>>)>,
) -> Map<Seq<char>, Option<Seq<char>>>
    decreases entries.len(),
{
    if entries.len() == 0 {
        Map::<Seq<char>, Option<Seq<char>>>::empty()
    } else {
        table_of(entries.drop_last()).insert(entries.last().0, entries.last().1)
    }
}

/// Where entry `i` carries `path` and no later entry does, the table
/// keeps exactly that entry's documentation: on duplicate paths the
/// later insertion wins.
pub proof fn lemma_table_of_last_match(
    entries: Seq<(Seq<char>, Option<Seq<char>>)>,
    path: Seq<char>,
    i: int,
)
    requires
        0 <= i < entries.len(),
        entries[i].0 == path,
        forall|j: int| i < j < entries.len() ==> entries[j].0 != path,
    ensures
        table_of(entries).contains_key(path),
        table_of(entries)[path] == entries[i].1,
    decreases entries.len(),
{
    if i < entries.len() - 1 {
        assert(entries.drop_last()[i] == entries[i]);
        lemma_table_of_last_match(entries.drop_last(), path, i);
    }
}

/// A path that no entry carries is absent from the table.
pub proof fn lemma_table_of_absent(entries: Seq<(Seq<char>, Option<Seq<char>>)>, path: Seq<char>)
    requires
        forall|j: int| 0 <= j < entries.len() ==> entries[j].0 != path,
    ensures
        !table_of(entries).contains_key(path),
    decreases entries.len(),
{
    if entries.len() > 0 {
        lemma_table_of_absent(entries.drop_last(), path);
    }
}

/// A path is in the table exactly when some entry of the backing list
/// carries it.
pub proof fn lemma_table_of_present(entries: Seq<(Seq<char>, Option<Seq<char>>)>, path: Seq<char>)
    ensures
        table_of(entries).contains_key(path) <==> (exists|i: int|
            0 <= i < entries.len() && entries[i].0 == path),
    decreases entries.len(),
{
    if entries.len() > 0 {
        lemma_table_of_present(entries.drop_last(), path);
        if entries.last().0 == path {
            assert(entries[entries.len() - 1].0 == path);
        } else {
            assert(forall|i: int|
                0 <= i < entries.len() - 1 ==> entries.drop_last()[i] == entries[i]);
            if table_of(entries).contains_key(path) {
                let i = choose|i: int|
                    0 <= i < entries.drop_last().len() && entries.drop_last()[i].0 == path;
                assert(entries[i].0 == path);
            }
        }
    }
}

/// What a lookup returns: success with the documentation of the path
/// where the table has it (which may itself be `None`, for an entry that
/// exists undocumented), and `NotFound` where it does not.
pub open spec fn lookup_post(
    table: Map<Seq<char>, Option<Seq<char>>>,
    path: Seq<char>,
    r: Result<Option<String>, NotFound>,
) -> bool {
    match r {
        Ok(doc) => table.contains_key(path) && doc_view(doc) == table[path],
        Err(_) => !table.contains_key(path),
    }
}

/// An immutable mapping from fully-qualified item paths to optional
/// documentation strings, built once from a fixed entry list and only
/// read thereafter.
pub struct Database {
    entries: Vec<(String, Option<String>)>,
}

impl View for Database {
    type V = Map<Seq<char>, Option<Seq<char>>>;

    closed spec fn view(&self) -> Map<Seq<char>, Option<Seq<char>>> {
        table_of(entries_view(self.entries@))
    }
}

impl Database {
    /// Builds the table from the given entry list, taking the entries in
    /// order; on duplicate paths the later entry wins.
    pub fn new(entries: Vec<(String, Option<String>)>) -> (db: Database)
        ensures
            db@ == table_of(entries_view(entries@)),
    {
        Database { entries }
    }

    /// Looks the path up in the table: its documentation where the path
    /// is present, `NotFound` where it is not.
    pub fn try_path(&self, path: &str) -> (r: Result<Option<String>, NotFound>)
        ensures
            lookup_post(self@, path@, r),
    {
        let key: String = path.to_owned();
        let ghost ev = entries_view(self.entries@);
        let mut i: usize = self.entries.len();
        while i > 0
            invariant
                i <= self.entries.len(),
                key@ == path@,
                ev == entries_view(self.entries@),
                forall|j: int| i <= j < ev.len() ==> ev[j].0 != path@,
            decreases i,
        {
            i = i - 1;
            let entry = &self.entries[i];
            if entry.0 == key {
                proof {
                    lemma_table_of_last_match(ev, path@, i as int);
                }
                let doc = match &entry.1 {
                    Some(text) => Some(text.clone()),
                    None => None,
                };
                return Ok(doc);
            }
        }
        proof {
            lemma_table_of_absent(ev, path@);
        }
        Err(NotFound)
    }

    /// Joins module and item with a single "." separator and looks the
    /// joined path up, exactly as `try_path` would.
    pub fn try_module_item(&self, module: &str, item: &str) -> (r: Result<Option<String>, NotFound>)
        ensures
            lookup_post(self@, module@ + "."@ + item@, r),
    {
        let path = module.to_owned().concat(".").concat(item);
        self.try_path(path.as_str())
    }
}

/// A present path is found: where entry `i` of the backing list carries
/// `path` and no later entry does, a lookup result for `path` in the
/// table built from that list is a success holding exactly that entry's
/// documentation.
pub proof fn lemma_lookup_present(
    entries: Seq<(Seq<char>, Option<Seq<char>>)>,
    path: Seq<char>,
    i: int,
    r: Result<Option<String>, NotFound>,
)
    requires
        lookup_post(table_of(entries), path, r),
        0 <= i < entries.len(),
        entries[i].0 == path,
        forall|j: int| i < j < entries.len() ==> entries[j].0 != path,
    ensures
        r matches Ok(doc) && doc_view(doc) == entries[i].1,
{
    lemma_table_of_last_match(entries, path, i);
}

/// An absent path is not found: where no entry of the backing list
/// carries `path`, a lookup result for `path` in the table built from
/// that list is the `NotFound` error.
pub proof fn lemma_lookup_absent(
    entries: Seq<(Seq<char>, Option<Seq<char>>)>,
    path: Seq<char>,
    r: Result<Option<String>, NotFound>,
)
    requires
        lookup_post(table_of(entries), path, r),
        forall|j: int| 0 <= j < entries.len() ==> entries[j].0 != path,
    ensures
        r == Err::<Option<String>, NotFound>(NotFound),
{
    lemma_table_of_absent(entries, path);
    match r {
        Ok(_) => {
            assert(false);
        },
        Err(e) => {
            assert(e == NotFound);
        },
    }
}

/// Lookups are pure: two results of looking the same path up in the same
/// table agree, whenever the two calls were made.
pub proof fn lemma_lookup_deterministic(
    table: Map<Seq<char>, Option<Seq<char>>>,
    path: Seq<char>,
    r1: Result<Option<String>, NotFound>,
    r2: Result<Option<String>, NotFound>,
)
    requires
        lookup_post(table, path, r1),
        lookup_post(table, path, r2),
    ensures
        r1 is Ok <==> r2 is Ok,
        r1 matches Ok(d1) ==> (r2 matches Ok(d2) && doc_view(d1) == doc_view(d2)),
        r1 is Err ==> r1 == r2,
{
    match (r1, r2) {
        (Err(e1), Err(e2)) => {
            assert(e1 == e2);
        },
        _ => {
        },
    }
}

} // verus!
