//! The table of contributors that a repository's reports leave out.

use itertools::Itertools;
use vstd::prelude::*;
use vstd::string::*;
use crate::text::{is_among, lowercase, to_lowercase};

verus! {

/// `csv::Error`, the error of the CSV reader. Nothing is known of its inside;
/// it is only carried to the caller.
#[verifier::external_type_specification]
#[verifier::external_body]
pub struct ExCsvError(csv::Error);

/// The rows that the CSV reader finds in `data` when it reads them without a
/// header row as pairs of text fields, or `None` where it reports an error.
pub uninterp spec fn csv_pairs(data: Seq<u8>) -> Option<Seq<(Seq<char>, Seq<char>)>>;

/// Reads `data` with `csv::ReaderBuilder` (headers off) and
/// `csv::Reader::deserialize`, collecting the rows up to the first error. The
/// contract names the outcome `csv_pairs(data)` and claims nothing else.
#[verifier::external_body]
fn read_pairs(data: &[u8]) -> (rows: Result<Vec<(String, String)>, csv::Error>)
    ensures
        match rows {
            Ok(pairs) => csv_pairs(data@) == Some(pairs.deep_view()),
            Err(_) => csv_pairs(data@) is None,
        },
{
    csv::ReaderBuilder::new()
        .has_headers(false)
        .from_reader(data)
        .deserialize::<(String, String)>()
        .collect()
}

/// Why a table of exclusions could not be loaded.
#[derive(Debug)]
pub struct LoadError {
    /// What the CSV reader reported.
    pub source: csv::Error,
}

/// The two logins that are left out of every report: the placeholder for
/// deleted accounts and the dependency-update bot.
pub open spec fn always_excluded(lowered: Seq<char>) -> bool {
    lowered == "ghost"@ || lowered == "dependabot[bot]"@
}

/// The table that `rows` of (repository, username) stand for: each repository
/// that occurs, with the lowercase forms of the usernames given for it.
pub open spec fn table_of(rows: Seq<(Seq<char>, Seq<char>)>) -> Map<Seq<char>, Set<Seq<char>>> {
    Map::new(
        |repo: Seq<char>| exists|i: int| 0 <= i < rows.len() && (#[trigger] rows[i]).0 == repo,
        |repo: Seq<char>|
            Set::new(
                |name: Seq<char>|
                    exists|i: int|
                        0 <= i < rows.len() && (#[trigger] rows[i]).0 == repo && lowercase(
                            rows[i].1,
                        ) == name,
            ),
    )
}

/// Whether `table` leaves out the user whose lowercase login is `lowered`
/// from the reports of `repo`. A repository without an entry excludes only
/// the two logins that are always excluded.
pub open spec fn excludes(
    table: Map<Seq<char>, Set<Seq<char>>>,
    repo: Seq<char>,
    lowered: Seq<char>,
) -> bool {
    always_excluded(lowered) || (table.dom().contains(repo) && table[repo].contains(lowered))
}

/// Rows in runs. Neighbouring rows that name the same repository form one
/// run: the repository, and the usernames in the order of the rows.
pub open spec fn grouped(rows: Seq<(Seq<char>, Seq<char>)>) -> Seq<(Seq<char>, Seq<Seq<char>>)>
    decreases rows.len(),
{
    if rows.len() == 0 {
        Seq::empty()
    } else {
        let before = grouped(rows.drop_last());
        let row = rows.last();
        if before.len() > 0 && before.last().0 == row.0 {
            before.drop_last().push((row.0, before.last().1.push(row.1)))
        } else {
            before.push((row.0, seq![row.1]))
        }
    }
}

/// Calls `itertools::Itertools::group_by` with the repository as the key and
/// collects each group. The contract says what the documentation of
/// `group_by` says: consecutive rows with the same key form one group, the
/// groups come in the order of the rows, and so do the rows of each group.
#[verifier::external_body]
fn group_by_repository(rows: Vec<(String, String)>) -> (runs: Vec<(String, Vec<String>)>)
    ensures
        runs.deep_view() == grouped(rows.deep_view()),
{
    rows.into_iter()
        .group_by(|(repo, _)| repo.clone())
        .into_iter()
        .map(|(repo, run)| (repo, run.map(|(_, name)| name).collect()))
        .collect()
}

/// Every run holds a row.
proof fn lemma_runs_are_not_empty(rows: Seq<(Seq<char>, Seq<char>)>, g: int)
    requires
        0 <= g < grouped(rows).len(),
    ensures
        grouped(rows)[g].1.len() > 0,
    decreases rows.len(),
{
    if g < grouped(rows.drop_last()).len() {
        lemma_runs_are_not_empty(rows.drop_last(), g);
    }
}

/// What stands in a run is a row: the result is its position.
proof fn lemma_run_member_is_row(rows: Seq<(Seq<char>, Seq<char>)>, g: int, k: int) -> (i: int)
    requires
        0 <= g < grouped(rows).len(),
        0 <= k < grouped(rows)[g].1.len(),
    ensures
        0 <= i < rows.len(),
        rows[i] == (grouped(rows)[g].0, grouped(rows)[g].1[k]),
    decreases rows.len(),
{
    let before = grouped(rows.drop_last());
    let extends = before.len() > 0 && before.last().0 == rows.last().0;
    if extends && g == before.len() - 1 && k < before.last().1.len() {
        lemma_run_member_is_row(rows.drop_last(), g, k)
    } else if g < grouped(rows).len() - 1 {
        lemma_run_member_is_row(rows.drop_last(), g, k)
    } else {
        rows.len() - 1
    }
}

/// Every row stands in a run: the result is the run and the place in it.
proof fn lemma_row_is_run_member(rows: Seq<(Seq<char>, Seq<char>)>, i: int) -> (at: (int, int))
    requires
        0 <= i < rows.len(),
    ensures
        0 <= at.0 < grouped(rows).len(),
        0 <= at.1 < grouped(rows)[at.0].1.len(),
        rows[i] == (grouped(rows)[at.0].0, grouped(rows)[at.0].1[at.1]),
    decreases rows.len(),
{
    let runs = grouped(rows);
    if i < rows.len() - 1 {
        lemma_row_is_run_member(rows.drop_last(), i)
    } else {
        (runs.len() - 1, runs.last().1.len() - 1)
    }
}

/// A run of the stored table names `repo`.
pub open spec fn has_repository(runs: Seq<(Seq<char>, Seq<Seq<char>>)>, repo: Seq<char>) -> bool {
    exists|g: int| 0 <= g < runs.len() && (#[trigger] runs[g]).0 == repo
}

/// A run of the stored table names `repo` and holds `name`.
pub open spec fn has_entry(
    runs: Seq<(Seq<char>, Seq<Seq<char>>)>,
    repo: Seq<char>,
    name: Seq<char>,
) -> bool {
    exists|g: int, k: int|
        0 <= g < runs.len() && 0 <= k < runs[g].1.len() && runs[g].0 == repo
            && #[trigger] runs[g].1[k] == name
}

/// The table of what is stored: runs whose usernames are lowercase already.
pub open spec fn stored_table(runs: Seq<(Seq<char>, Seq<Seq<char>>)>) -> Map<
    Seq<char>,
    Set<Seq<char>>,
> {
    Map::new(
        |repo: Seq<char>| has_repository(runs, repo),
        |repo: Seq<char>| Set::new(|name: Seq<char>| has_entry(runs, repo, name)),
    )
}

/// The runs of `given`, with every username in lowercase, hold the table of
/// `given`.
proof fn lemma_stored_runs(
    given: Seq<(Seq<char>, Seq<char>)>,
    kept: Seq<(Seq<char>, Seq<Seq<char>>)>,
)
    requires
        kept.len() == grouped(given).len(),
        forall|g: int|
            0 <= g < kept.len() ==> (#[trigger] kept[g]).0 == grouped(given)[g].0 && kept[g].1.len()
                == grouped(given)[g].1.len(),
        forall|g: int, k: int|
            0 <= g < kept.len() && 0 <= k < kept[g].1.len() ==> #[trigger] kept[g].1[k]
                == lowercase(grouped(given)[g].1[k]),
    ensures
        stored_table(kept) == table_of(given),
{
    let runs = grouped(given);
    let left = stored_table(kept);
    let right = table_of(given);
    assert forall|repo: Seq<char>| left.dom().contains(repo) <==> right.dom().contains(repo) by {
        if has_repository(kept, repo) {
            let g = choose|g: int| 0 <= g < kept.len() && (#[trigger] kept[g]).0 == repo;
            lemma_runs_are_not_empty(given, g);
            let i = lemma_run_member_is_row(given, g, 0);
            assert(given[i].0 == repo);
        }
        if right.dom().contains(repo) {
            let i = choose|i: int| 0 <= i < given.len() && (#[trigger] given[i]).0 == repo;
            let at = lemma_row_is_run_member(given, i);
            assert(kept[at.0].0 == repo);
        }
    }
    assert forall|repo: Seq<char>| left.dom().contains(repo) implies left[repo] =~= right[repo] by {
        assert forall|name: Seq<char>| left[repo].contains(name) <==> right[repo].contains(
            name,
        ) by {
            if has_entry(kept, repo, name) {
                let (g, k) = choose|g: int, k: int|
                    0 <= g < kept.len() && 0 <= k < kept[g].1.len() && kept[g].0 == repo
                        && #[trigger] kept[g].1[k] == name;
                let i = lemma_run_member_is_row(given, g, k);
                assert(given[i].0 == repo && lowercase(given[i].1) == name);
            }
            if right[repo].contains(name) {
                let i = choose|i: int|
                    0 <= i < given.len() && (#[trigger] given[i]).0 == repo && lowercase(
                        given[i].1,
                    ) == name;
                let at = lemma_row_is_run_member(given, i);
                assert(kept[at.0].0 == repo && kept[at.0].1[at.1] == name);
            }
        }
    }
}

/// A row of the table names `repo` and a username whose lowercase form is
/// `lowered`.
pub open spec fn listed(rows: Seq<(Seq<char>, Seq<char>)>, repo: Seq<char>, lowered: Seq<char>) -> bool {
    exists|i: int|
        0 <= i < rows.len() && (#[trigger] rows[i]).0 == repo && lowercase(rows[i].1) == lowered
}

/// A user is excluded exactly where the login is one of the two that are
/// always excluded, or a row names the repository and the login. A
/// repository that no row names excludes only those two.
pub proof fn lemma_excluded_by_rows(
    rows: Seq<(Seq<char>, Seq<char>)>,
    repo: Seq<char>,
    lowered: Seq<char>,
)
    ensures
        excludes(table_of(rows), repo, lowered) <==> always_excluded(lowered) || listed(
            rows,
            repo,
            lowered,
        ),
{
    if listed(rows, repo, lowered) {
        let i = choose|i: int|
            0 <= i < rows.len() && (#[trigger] rows[i]).0 == repo && lowercase(rows[i].1)
                == lowered;
        assert(table_of(rows).dom().contains(repo));
    }
}

/// Case does not matter. Two spellings of a login with the same lowercase
/// form are excluded alike, and a row excludes every spelling of its login.
pub proof fn lemma_exclusion_ignores_case(
    rows: Seq<(Seq<char>, Seq<char>)>,
    repo: Seq<char>,
    spelling: Seq<char>,
    other: Seq<char>,
)
    requires
        lowercase(spelling) == lowercase(other),
    ensures
        excludes(table_of(rows), repo, lowercase(spelling)) == excludes(
            table_of(rows),
            repo,
            lowercase(other),
        ),
        rows.contains((repo, other)) ==> excludes(table_of(rows), repo, lowercase(spelling)),
{
    if rows.contains((repo, other)) {
        let i = choose|i: int| 0 <= i < rows.len() && rows[i] == (repo, other);
        assert(rows[i].0 == repo && lowercase(rows[i].1) == lowercase(spelling));
        lemma_excluded_by_rows(rows, repo, lowercase(spelling));
    }
}

/// Loading is idempotent. Rows that repeat rows already given change
/// nothing, and neither does the order of the rows.
pub proof fn lemma_loading_is_idempotent(
    rows: Seq<(Seq<char>, Seq<char>)>,
    again: Seq<(Seq<char>, Seq<char>)>,
)
    requires
        forall|j: int| 0 <= j < again.len() ==> rows.contains(#[trigger] again[j]),
    ensures
        table_of(rows + again) == table_of(rows),
        table_of(again + rows) == table_of(rows),
{
    let appended = rows + again;
    let prepended = again + rows;
    assert forall|row: (Seq<char>, Seq<char>)| appended.contains(row) <==> rows.contains(row) by {
        if appended.contains(row) {
            let i = choose|i: int| 0 <= i < appended.len() && appended[i] == row;
            if i >= rows.len() {
                assert(again[i - rows.len()] == row);
            }
        }
        if rows.contains(row) {
            let i = choose|i: int| 0 <= i < rows.len() && rows[i] == row;
            assert(appended[i] == row);
        }
    }
    assert forall|row: (Seq<char>, Seq<char>)| prepended.contains(row) <==> rows.contains(row) by {
        if prepended.contains(row) {
            let i = choose|i: int| 0 <= i < prepended.len() && prepended[i] == row;
            if i < again.len() {
                assert(again[i] == row);
            }
        }
        if rows.contains(row) {
            let i = choose|i: int| 0 <= i < rows.len() && rows[i] == row;
            assert(prepended[again.len() + i] == row);
        }
    }
    lemma_same_rows_same_table(appended, rows);
    lemma_same_rows_same_table(prepended, rows);
}

/// Two lists with the same rows, in whatever order and number, stand for the
/// same table.
pub proof fn lemma_same_rows_same_table(
    left: Seq<(Seq<char>, Seq<char>)>,
    right: Seq<(Seq<char>, Seq<char>)>,
)
    requires
        forall|row: (Seq<char>, Seq<char>)| left.contains(row) <==> right.contains(row),
    ensures
        table_of(left) == table_of(right),
{
    lemma_rows_within(left, right);
    lemma_rows_within(right, left);
    let a = table_of(left);
    let b = table_of(right);
    assert forall|repo: Seq<char>| a.dom().contains(repo) implies a[repo] =~= b[repo] by {}
}

/// Where every row of `inner` is a row of `outer`, what `inner` lists,
/// `outer` lists too.
proof fn lemma_rows_within(inner: Seq<(Seq<char>, Seq<char>)>, outer: Seq<(Seq<char>, Seq<char>)>)
    requires
        forall|row: (Seq<char>, Seq<char>)| inner.contains(row) ==> outer.contains(row),
    ensures
        forall|repo: Seq<char>|
            table_of(inner).dom().contains(repo) ==> #[trigger] table_of(outer).dom().contains(
                repo,
            ),
        forall|repo: Seq<char>, name: Seq<char>|
            table_of(inner).dom().contains(repo) && table_of(inner)[repo].contains(name)
                ==> #[trigger] table_of(outer)[repo].contains(name),
{
    assert forall|repo: Seq<char>| table_of(inner).dom().contains(repo) implies table_of(
        outer,
    ).dom().contains(repo) by {
        let i = choose|i: int| 0 <= i < inner.len() && (#[trigger] inner[i]).0 == repo;
        assert(inner.contains(inner[i]));
        let j = choose|j: int| 0 <= j < outer.len() && outer[j] == inner[i];
        assert(outer[j].0 == repo);
    }
    assert forall|repo: Seq<char>, name: Seq<char>|
        table_of(inner).dom().contains(repo) && table_of(inner)[repo].contains(
            name,
        ) implies table_of(outer)[repo].contains(name) by {
        let i = choose|i: int|
            0 <= i < inner.len() && (#[trigger] inner[i]).0 == repo && lowercase(inner[i].1)
                == name;
        assert(inner.contains(inner[i]));
        let j = choose|j: int| 0 <= j < outer.len() && outer[j] == inner[i];
        assert(outer[j].0 == repo && lowercase(outer[j].1) == name);
    }
}

/// For each repository, the users that its reports leave out.
#[derive(Clone, Debug)]
pub struct Exclusions {
    /// Runs of rows for one repository, with the usernames in lowercase.
    runs: Vec<(String, Vec<String>)>,
}

impl View for Exclusions {
    type V = Map<Seq<char>, Set<Seq<char>>>;

    closed spec fn view(&self) -> Map<Seq<char>, Set<Seq<char>>> {
        stored_table(self.runs.deep_view())
    }
}

impl Default for Exclusions {
    /// The table without entries.
    fn default() -> (table: Exclusions)
        ensures
            table@ == Map::<Seq<char>, Set<Seq<char>>>::empty(),
    {
        Exclusions { runs: Vec::new() }
    }
}

/// The usernames of a run in lowercase.
fn lowered_names(names: &Vec<String>) -> (lowered: Vec<String>)
    ensures
        lowered.len() == names.len(),
        forall|k: int|
            0 <= k < names.len() ==> #[trigger] lowered.deep_view()[k] == lowercase(
                names.deep_view()[k],
            ),
{
    let mut lowered: Vec<String> = Vec::new();
    let mut k: usize = 0;
    while k < names.len()
        invariant
            k <= names.len(),
            lowered.len() == k,
            forall|j: int|
                0 <= j < k ==> #[trigger] lowered.deep_view()[j] == lowercase(names.deep_view()[j]),
        decreases names.len() - k,
    {
        let ghost before = lowered.deep_view();
        lowered.push(to_lowercase(names[k].as_str()));
        assert forall|j: int| 0 <= j < k + 1 implies #[trigger] lowered.deep_view()[j]
            == lowercase(names.deep_view()[j]) by {
            if j < k {
                assert(lowered.deep_view()[j] == before[j]);
            }
        }
        k += 1;
    }
    lowered
}

impl Exclusions {
    /// The table that `pairs` of (repository, username) stand for. Usernames
    /// are kept in lowercase; order and repetition do not matter.
    pub fn from_pairs(pairs: Vec<(String, String)>) -> (table: Exclusions)
        ensures
            table@ == table_of(pairs.deep_view()),
    {
        let ghost given = pairs.deep_view();
        let grouped_rows = group_by_repository(pairs);
        let mut runs: Vec<(String, Vec<String>)> = Vec::new();
        let mut g: usize = 0;
        while g < grouped_rows.len()
            invariant
                g <= grouped_rows.len(),
                runs.len() == g,
                grouped_rows.deep_view() == grouped(given),
                forall|h: int|
                    0 <= h < g ==> (#[trigger] runs.deep_view()[h]).0 == grouped(given)[h].0
                        && runs.deep_view()[h].1.len() == grouped(given)[h].1.len(),
                forall|h: int, k: int|
                    0 <= h < g && 0 <= k < runs.deep_view()[h].1.len()
                        ==> #[trigger] runs.deep_view()[h].1[k] == lowercase(
                        grouped(given)[h].1[k],
                    ),
            decreases grouped_rows.len() - g,
        {
            let ghost before = runs.deep_view();
            let repo = grouped_rows[g].0.clone();
            let names = lowered_names(&grouped_rows[g].1);
            runs.push((repo, names));
            proof {
                let after = runs.deep_view();
                assert forall|h: int| 0 <= h < g + 1 implies (#[trigger] after[h]).0 == grouped(
                    given,
                )[h].0 && after[h].1.len() == grouped(given)[h].1.len() by {
                    if h < g {
                        assert(after[h] == before[h]);
                    }
                }
                assert forall|h: int, k: int|
                    0 <= h < g + 1 && 0 <= k < after[h].1.len() implies #[trigger] after[h].1[k]
                    == lowercase(grouped(given)[h].1[k]) by {
                    if h < g {
                        assert(after[h] == before[h]);
                    }
                }
            }
            g += 1;
        }
        proof {
            lemma_stored_runs(given, runs.deep_view());
        }
        Exclusions { runs }
    }

    /// Loads the table from CSV text: two columns, repository and username,
    /// and no header row. Fails exactly where the CSV reader does.
    pub fn load(data: &[u8]) -> (loaded: Result<Exclusions, LoadError>)
        ensures
            match loaded {
                Ok(table) => csv_pairs(data@) matches Some(rows) && table@ == table_of(rows),
                Err(_) => csv_pairs(data@) is None,
            },
    {
        match read_pairs(data) {
            Ok(pairs) => Ok(Exclusions::from_pairs(pairs)),
            Err(source) => Err(LoadError { source }),
        }
    }

    /// Whether the reports of `repo` leave out the user whose login, in
    /// lowercase, is `lowered`.
    pub fn is_excluded_lowered(&self, repo: &str, lowered: &str) -> (excluded: bool)
        ensures
            excluded == excludes(self@, repo@, lowered@),
    {
        let name = lowered.to_owned();
        if name == String::from_str("ghost") || name == String::from_str("dependabot[bot]") {
            return true;
        }
        let key = repo.to_owned();
        let ghost stored = self.runs.deep_view();
        let mut g: usize = 0;
        while g < self.runs.len()
            invariant
                g <= self.runs.len(),
                key@ == repo@,
                stored == self.runs.deep_view(),
                forall|h: int, k: int|
                    0 <= h < g && 0 <= k < stored[h].1.len() ==> !(stored[h].0 == repo@
                        && #[trigger] stored[h].1[k] == lowered@),
            decreases self.runs.len() - g,
        {
            if self.runs[g].0 == key {
                if is_among(&self.runs[g].1, lowered) {
                    let ghost k = choose|k: int|
                        0 <= k < stored[g as int].1.len() && stored[g as int].1[k] == lowered@;
                    assert(has_entry(stored, repo@, stored[g as int].1[k]));
                    return true;
                }
            }
            g += 1;
        }
        false
    }

    /// Whether the reports of `repo` leave out `username`. Case does not
    /// matter: the question is asked of the lowercase form of the login.
    pub fn is_excluded(&self, repo: &str, username: &str) -> (excluded: bool)
        ensures
            excluded == excludes(self@, repo@, lowercase(username@)),
    {
        let lowered = to_lowercase(username);
        self.is_excluded_lowered(repo, lowered.as_str())
    }
}

} // verus!
