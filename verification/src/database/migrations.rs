//! Migrations: the `.sql` files of the migrations directory run in file-name order;
//! those already run are recorded in a table and skipped.
use vstd::prelude::*;
use crate::common::order::{distinct_views, sort_strings, strictly_sorted, view_set};
use crate::common::text::{ends_with, has_suffix, list_contains, seq_views};

verus! {

/// The table that records applied migrations.
pub const MIGRATIONS_TABLE: &'static str = "_migrations";

/// Whether a file name has the extension `sql` (as `Path::extension` sees it: the part
/// after the last dot, when something comes before that dot).
pub open spec fn is_sql_file(name: Seq<char>) -> bool {
    has_suffix(name, ".sql"@) && name.len() > 4
}

/// Whether a file name has the extension `sql`.
pub fn sql_file(name: &str) -> (yes: bool)
    ensures
        yes == is_sql_file(name@),
{
    ends_with(name, ".sql") && crate::common::text::chars_of(name).len() > 4
}

/// The migrations still to run: the `.sql` files not yet applied, by file name in
/// increasing order. `names` are the directory's file names.
pub fn pending_migrations(names: &Vec<String>, applied: &Vec<String>) -> (pending: Vec<String>)
    requires
        distinct_views(names@),
    ensures
        strictly_sorted(pending@),
        view_set(pending@) == Set::new(|n: Seq<char>| seq_views(names@).contains(n) && is_sql_file(n)
            && !seq_views(applied@).contains(n)),
{
    let mut chosen: Vec<String> = Vec::new();
    let mut i: usize = 0;
    while i < names.len()
        invariant
            i <= names.len(),
            distinct_views(names@),
            distinct_views(chosen@),
            view_set(chosen@) == Set::new(|n: Seq<char>| (exists|k: int| 0 <= k < i && #[trigger] names@[k]@ == n)
                && is_sql_file(n) && !seq_views(applied@).contains(n)),
        decreases names.len() - i,
    {
        let ghost before = chosen@;
        let name = &names[i];
        if sql_file(name.as_str()) && !list_contains(applied, name.as_str()) {
            chosen.push(name.clone());
            proof {
                assert forall|a: int, b: int| 0 <= a < b < chosen@.len() implies #[trigger] chosen@[a]@ != #[trigger] chosen@[b]@ by {
                    if b == chosen@.len() - 1 {
                        assert(chosen@[a] == before[a]);
                        assert(view_set(before).contains(before[a]@));
                        let k = choose|k: int| 0 <= k < i && #[trigger] names@[k]@ == before[a]@;
                        assert(names@[k]@ != names@[i as int]@);
                    } else {
                        assert(chosen@[a] == before[a] && chosen@[b] == before[b]);
                    }
                }
            }
        }
        proof {
            let next = Set::new(|n: Seq<char>| (exists|k: int| 0 <= k < i + 1 && #[trigger] names@[k]@ == n)
                && is_sql_file(n) && !seq_views(applied@).contains(n));
            assert(view_set(chosen@) =~= next) by {
                assert forall|n: Seq<char>| view_set(chosen@).contains(n) implies next.contains(n) by {
                    let j = choose|j: int| 0 <= j < chosen@.len() && #[trigger] chosen@[j]@ == n;
                    if j < before.len() {
                        assert(chosen@[j] == before[j]);
                        assert(view_set(before).contains(n));
                        let k = choose|k: int| 0 <= k < i && #[trigger] names@[k]@ == n;
                    } else {
                        assert(names@[i as int]@ == n);
                    }
                }
                assert forall|n: Seq<char>| next.contains(n) implies view_set(chosen@).contains(n) by {
                    let k = choose|k: int| 0 <= k < i + 1 && #[trigger] names@[k]@ == n;
                    if k < i {
                        assert(view_set(before).contains(n));
                        let j = choose|j: int| 0 <= j < before.len() && #[trigger] before[j]@ == n;
                        assert(chosen@[j] == before[j]);
                    } else {
                        assert(chosen@[chosen@.len() - 1]@ == n);
                    }
                }
            }
        }
        i += 1;
    }
    proof {
        assert(view_set(chosen@) =~= Set::new(|n: Seq<char>| seq_views(names@).contains(n) && is_sql_file(n)
            && !seq_views(applied@).contains(n)));
    }
    sort_strings(chosen)
}

} // verus!
