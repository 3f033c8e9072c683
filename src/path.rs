use vstd::prelude::*;

verus! {

/// What a typed path is, against the filesystem.
#[derive(Clone, Debug, PartialEq, Eq)]
pub enum PathExisting {
    /// The path exists.
    Exists(String),
    /// The path does not exist, but its parent directory does: the user is
    /// still typing its last component.
    ParentExists(String),
    /// Neither the path nor its parent directory exists.
    NotFound,
}

/// The parent of a path, as `std::path::Path::parent` gives it.
pub uninterp spec fn parent_of(p: Seq<char>) -> Option<Seq<char>>;

/// The last component of a path, as `std::path::Path::file_name` gives it.
pub uninterp spec fn file_name_of(p: Seq<char>) -> Option<Seq<char>>;

/// The extension of a path, as `std::path::Path::extension` gives it.
pub uninterp spec fn extension_of(p: Seq<char>) -> Option<Seq<char>>;

/// Relies on `std::path::Path::parent`.
#[verifier::external_body]
fn path_parent(p: &str) -> (r: Option<String>)
    ensures
        r matches Some(q) ==> parent_of(p@) == Some(q@),
        r is None ==> parent_of(p@) is None,
{
    match std::path::Path::new(p).parent() {
        Some(q) => Some(q.to_string_lossy().into_owned()),
        None => None,
    }
}

/// Relies on `std::path::Path::file_name`.
#[verifier::external_body]
fn path_file_name(p: &str) -> (r: Option<String>)
    ensures
        r matches Some(q) ==> file_name_of(p@) == Some(q@),
        r is None ==> file_name_of(p@) is None,
{
    match std::path::Path::new(p).file_name() {
        Some(q) => Some(q.to_string_lossy().into_owned()),
        None => None,
    }
}

/// Relies on `std::path::Path::extension`.
#[verifier::external_body]
fn path_extension(p: &str) -> (r: Option<String>)
    ensures
        r matches Some(q) ==> extension_of(p@) == Some(q@),
        r is None ==> extension_of(p@) is None,
{
    match std::path::Path::new(p).extension() {
        Some(q) => Some(q.to_string_lossy().into_owned()),
        None => None,
    }
}

/// Classifies a path from what the filesystem says of it: whether the path
/// exists, and whether it has a parent that exists.
pub fn classify_path(path: String, exists: bool, parent_exists: bool) -> (r: PathExisting)
    ensures
        exists ==> r == PathExisting::Exists(path),
        !exists && parent_exists ==> r == PathExisting::ParentExists(path),
        !exists && !parent_exists ==> r == PathExisting::NotFound,
{
    if exists {
        PathExisting::Exists(path)
    } else if parent_exists {
        PathExisting::ParentExists(path)
    } else {
        PathExisting::NotFound
    }
}

/// Which directory to list for autocompletion, and the prefix that the
/// listed names must start with (`None`: keep every entry).
#[derive(Clone, Debug, PartialEq, Eq)]
pub struct AutocompleteQuery {
    pub dir: String,
    pub prefix: Option<String>,
}

/// The directory listing that autocompletion needs for a resolved path:
/// the path itself when it exists (meant for a directory), the parent
/// filtered by the typed file name when only the parent exists, and nothing
/// otherwise.
pub fn autocomplete_query(res: &PathExisting) -> (r: Option<AutocompleteQuery>)
    ensures
        res matches PathExisting::Exists(p) ==> match r {
            Some(q) => q.dir@ == p@ && q.prefix is None,
            None => false,
        },
        res matches PathExisting::ParentExists(p) ==> match (parent_of(p@), file_name_of(p@)) {
            (Some(d), Some(n)) => match r {
                Some(q) => q.dir@ == d && prefix_view(q) == Some(n),
                None => false,
            },
            _ => r is None,
        },
        res is NotFound ==> r is None,
{
    match res {
        PathExisting::Exists(p) => Some(AutocompleteQuery { dir: p.clone(), prefix: None }),
        PathExisting::ParentExists(p) => {
            match (path_parent(p.as_str()), path_file_name(p.as_str())) {
                (Some(d), Some(n)) => Some(AutocompleteQuery { dir: d, prefix: Some(n) }),
                _ => None,
            }
        },
        PathExisting::NotFound => None,
    }
}

/// `s` starts with `p`.
pub fn starts_with(s: &str, p: &str) -> (r: bool)
    ensures
        r == p@.is_prefix_of(s@),
{
    let n = p.unicode_len();
    if n > s.unicode_len() {
        return false;
    }
    let mut i: usize = 0;
    while i < n
        invariant
            n == p@.len(),
            n <= s@.len(),
            i <= n,
            forall|k: int| 0 <= k < i ==> p@[k] == s@[k],
        decreases n - i,
    {
        if p.get_char(i) != s.get_char(i) {
            return false;
        }
        i = i + 1;
    }
    true
}

/// `a` and `b` hold the same characters.
pub fn same_text(a: &str, b: &str) -> (r: bool)
    ensures
        r == (a@ == b@),
{
    let same = a.unicode_len() == b.unicode_len() && starts_with(a, b);
    proof {
        if same {
            assert(a@ =~= b@);
        }
    }
    same
}

/// An entry is offered when there is no prefix, or when its file name starts
/// with the prefix.
pub open spec fn offered(prefix: Option<Seq<char>>, entry: Seq<char>) -> bool {
    match prefix {
        None => true,
        Some(x) => match file_name_of(entry) {
            Some(n) => x.is_prefix_of(n),
            None => false,
        },
    }
}

/// The offered entries, in listing order.
pub open spec fn candidates_spec(prefix: Option<Seq<char>>, entries: Seq<Seq<char>>) -> Seq<Seq<char>>
    decreases entries.len(),
{
    if entries.len() == 0 {
        Seq::empty()
    } else {
        let prev = candidates_spec(prefix, entries.drop_last());
        if offered(prefix, entries.last()) {
            prev.push(entries.last())
        } else {
            prev
        }
    }
}

/// For a path whose parent exists, autocompletion offers exactly the listed
/// entries whose file name starts with the typed prefix.
pub proof fn lemma_candidates_match_prefix(prefix: Seq<char>, entries: Seq<Seq<char>>)
    ensures
        forall|e: Seq<char>|
            #[trigger] candidates_spec(Some(prefix), entries).contains(e) <==> (entries.contains(e)
                && offered(Some(prefix), e)),
    decreases entries.len(),
{
    if entries.len() > 0 {
        let rest = entries.drop_last();
        lemma_candidates_match_prefix(prefix, rest);
        assert(entries =~= rest.push(entries.last()));
        assert forall|e: Seq<char>|
            #[trigger] candidates_spec(Some(prefix), entries).contains(e) <==> (entries.contains(e)
                && offered(Some(prefix), e)) by {
            let prev = candidates_spec(Some(prefix), rest);
            if offered(Some(prefix), entries.last()) {
                assert(candidates_spec(Some(prefix), entries) == prev.push(entries.last()));
                if prev.push(entries.last()).contains(e) && e != entries.last() {
                    let i = choose|i: int| 0 <= i < prev.len() + 1 && prev.push(entries.last())[i] == e;
                    assert(prev[i] == e);
                }
                if prev.contains(e) {
                    let i = choose|i: int| 0 <= i < prev.len() && prev[i] == e;
                    assert(prev.push(entries.last())[i] == e);
                }
                assert(prev.push(entries.last())[prev.len() as int] == entries.last());
            }
            if entries.contains(e) && e != entries.last() {
                let i = choose|i: int| 0 <= i < entries.len() && entries[i] == e;
                assert(rest[i] == e);
            }
            if rest.contains(e) {
                let i = choose|i: int| 0 <= i < rest.len() && rest[i] == e;
                assert(entries[i] == e);
            }
            assert(entries[entries.len() - 1] == entries.last());
        }
    }
}

pub open spec fn prefix_view(q: AutocompleteQuery) -> Option<Seq<char>> {
    match q.prefix {
        Some(x) => Some(x@),
        None => None,
    }
}

pub open spec fn paths_view(v: Seq<String>) -> Seq<Seq<char>> {
    v.map_values(|s: String| s@)
}

/// The entries of the listed directory that autocompletion offers, in the
/// order the listing gave them.
pub fn autocomplete_candidates(query: &AutocompleteQuery, entries: &Vec<String>) -> (r: Vec<String>)
    ensures
        paths_view(r@) == candidates_spec(prefix_view(*query), paths_view(entries@)),
{
    let ghost x = prefix_view(*query);
    let mut r: Vec<String> = Vec::new();
    let mut i: usize = 0;
    while i < entries.len()
        invariant
            i <= entries.len(),
            x == prefix_view(*query),
            paths_view(r@) == candidates_spec(x, paths_view(entries@).subrange(0, i as int)),
        decreases entries.len() - i,
    {
        let e = &entries[i];
        let keep = match &query.prefix {
            None => true,
            Some(p) => match path_file_name(e.as_str()) {
                Some(n) => starts_with(n.as_str(), p.as_str()),
                None => false,
            },
        };
        let ghost before = paths_view(r@);
        let ghost next = paths_view(entries@).subrange(0, i + 1);
        assert(next.drop_last() =~= paths_view(entries@).subrange(0, i as int));
        assert(next.last() == e@);
        if keep {
            r.push(e.clone());
            assert(paths_view(r@) =~= before.push(e@));
        }
        i = i + 1;
    }
    assert(paths_view(entries@).subrange(0, i as int) =~= paths_view(entries@));
    r
}

/// The extensions of the spreadsheet files that can be opened.
pub open spec fn is_spreadsheet_ext(e: Seq<char>) -> bool {
    e == "xls"@ || e == "xlsx"@ || e == "xlsb"@ || e == "ods"@
}

/// The path's extension is that of a spreadsheet file.
pub open spec fn names_spreadsheet(path: Seq<char>) -> bool {
    match extension_of(path) {
        Some(e) => is_spreadsheet_ext(e),
        None => false,
    }
}

/// The path names a spreadsheet file by its extension.
pub fn is_excel(path: &str) -> (r: bool)
    ensures
        r == names_spreadsheet(path@),
{
    match path_extension(path) {
        Some(e) => {
            let e = e.as_str();
            same_text(e, "xls") || same_text(e, "xlsx") || same_text(e, "xlsb") || same_text(e, "ods")
        },
        None => false,
    }
}

/// The workbook path after the user typed `input`: the typed path when it
/// exists and names a spreadsheet file, else the path chosen before.
pub fn accept_path(current: Option<String>, input: String, res: &PathExisting) -> (r: Option<String>)
    ensures
        (res is Exists && names_spreadsheet(input@)) ==> r == Some(input),
        !(res is Exists && names_spreadsheet(input@)) ==> r == current,
{
    if matches!(res, PathExisting::Exists(_)) && is_excel(input.as_str()) {
        Some(input)
    } else {
        current
    }
}

} // verus!
