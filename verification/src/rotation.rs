use vstd::prelude::*;
use vstd::string::*;
use vstd::set_lib::{lemma_int_range, lemma_len_subset, set_int_range};
use vstd::seq_lib::seq_to_set_is_finite;
use crate::text::{
    dec_spec, ends_with_spec, starts_with_spec, str_ends_with, str_starts_with, u128_to_dec,
};

verus! {

broadcast use vstd::set::group_set_axioms;

/// Default rotation threshold: 5 MiB.
pub const DEFAULT_MAX_LOG_BYTES: u64 = 5 * 1024 * 1024;

/// Default number of rotated generations retained per stem.
pub const DEFAULT_KEEP_ROTATED: usize = 5;

// ---------------------------------------------------------------------------
// Rotation decision and naming
// ---------------------------------------------------------------------------

/// A file is rotated before the next open exactly when its size exceeds the
/// threshold; a file at or below the threshold is left alone.
pub open spec fn should_rotate_spec(size: u64, max_bytes: u64) -> bool {
    size > max_bytes
}

pub fn should_rotate(size: u64, max_bytes: u64) -> (r: bool)
    ensures
        r == should_rotate_spec(size, max_bytes),
{
    size > max_bytes
}

/// The name a rotated file takes: `<stem>-<unix_ms>.log`.
pub open spec fn rotated_name_spec(stem: Seq<char>, ts: nat) -> Seq<char> {
    stem + seq!['-'] + dec_spec(ts) + seq!['.', 'l', 'o', 'g']
}

pub fn rotated_file_name(stem: &str, ts: u128) -> (r: String)
    ensures
        r@ == rotated_name_spec(stem@, ts as nat),
{
    let mut r = String::from_str(stem);
    let dash = "-";
    proof {
        reveal_strlit("-");
        assert(dash@ =~= seq!['-']);
    }
    r.append(dash);
    let d = u128_to_dec(ts);
    r.append(d.as_str());
    let ext = ".log";
    proof {
        reveal_strlit(".log");
        assert(ext@ =~= seq!['.', 'l', 'o', 'g']);
    }
    r.append(ext);
    proof {
        assert(r@ =~= rotated_name_spec(stem@, ts as nat));
    }
    r
}

/// Whether `name` is a rotated generation of the stem: it starts with
/// `<stem>-` and ends with `.log`, as rotated files are named.
pub open spec fn rotated_sibling_spec(name: Seq<char>, stem: Seq<char>) -> bool {
    starts_with_spec(name, stem + seq!['-']) && ends_with_spec(name, seq!['.', 'l', 'o', 'g'])
}

pub fn is_rotated_sibling(name: &str, stem: &str) -> (r: bool)
    ensures
        r == rotated_sibling_spec(name@, stem@),
{
    let mut p = String::from_str(stem);
    let dash = "-";
    proof {
        reveal_strlit("-");
        assert(dash@ =~= seq!['-']);
    }
    p.append(dash);
    let sw = str_starts_with(name, p.as_str());
    let ext = ".log";
    proof {
        reveal_strlit(".log");
        assert(ext@ =~= seq!['.', 'l', 'o', 'g']);
    }
    let ew = str_ends_with(name, ext);
    sw && ew
}

// ---------------------------------------------------------------------------
// Retention: which rotated generations to delete
// ---------------------------------------------------------------------------

fn vec_contains(v: &Vec<usize>, x: usize) -> (r: bool)
    ensures
        r == v@.contains(x),
{
    let n = v.len();
    let mut i: usize = 0;
    while i < n
        invariant
            0 <= i <= n,
            n == v@.len(),
            forall|k: int| 0 <= k < i ==> v@[k] != x,
        decreases n - i,
    {
        if *v.get(i).unwrap() == x {
            return true;
        }
        i += 1;
    }
    false
}

/// Among `n` distinct indices fewer than `n` can be listed, so one is missing.
proof fn lemma_missing_index(d: Seq<usize>, n: usize)
    requires
        d.no_duplicates(),
        forall|k: int| 0 <= k < d.len() ==> (d[k] as int) < n,
        d.len() < n,
    ensures
        exists|j: usize| (j as int) < n && !d.contains(j),
{
    let di = d.map_values(|x: usize| x as int);
    assert(di.no_duplicates()) by {
        assert forall|i: int, j: int|
            (0 <= i < di.len() && 0 <= j < di.len() && i != j) implies di[i] != di[j] by {
            assert(d[i] != d[j]);
        }
    }
    di.unique_seq_to_set();
    lemma_int_range(0, n as int);
    let range = set_int_range(0, n as int);
    if forall|j: int| 0 <= j < n ==> #[trigger] di.to_set().contains(j) {
        assert(range.subset_of(di.to_set()));
        seq_to_set_is_finite(di);
        lemma_len_subset(range, di.to_set());
        assert(false);
    }
    let j = choose|j: int| 0 <= j < n && !(#[trigger] di.to_set().contains(j));
    let ju = j as usize;
    assert(!d.contains(ju)) by {
        if d.contains(ju) {
            let k = choose|k: int| 0 <= k < d.len() && d[k] == ju;
            assert(di[k] == j);
            assert(di.contains(j));
        }
    }
}

/// Picks the rotated generations to delete under the retention policy:
/// when more than `keep` generations exist, the excess ones with the
/// oldest modification times go; the `keep` that remain are the most
/// recently modified.
///
/// `mtimes` holds one modification time per candidate file; the result
/// holds the positions of the files to delete, each position at most once.
pub fn oldest_excess_indices(mtimes: &Vec<u64>, keep: usize) -> (del: Vec<usize>)
    ensures
        del@.len() == if mtimes@.len() > keep {
            mtimes@.len() - keep
        } else {
            0
        },
        del@.no_duplicates(),
        forall|a: int| 0 <= a < del@.len() ==> (del@[a] as int) < mtimes@.len(),
        forall|a: int, j: usize|
            0 <= a < del@.len() && (j as int) < mtimes@.len() && !del@.contains(j)
                ==> mtimes@[del@[a] as int] <= mtimes@[j as int],
{
    let n = mtimes.len();
    if n <= keep {
        return Vec::new();
    }
    let excess = n - keep;
    let mut del: Vec<usize> = Vec::new();
    let mut t: usize = 0;
    while t < excess
        invariant
            del@.len() == t,
            0 <= t <= excess,
            excess == n - keep,
            n == mtimes@.len(),
            keep < n,
            del@.no_duplicates(),
            forall|a: int| 0 <= a < del@.len() ==> (del@[a] as int) < n,
            forall|a: int, j: usize|
                0 <= a < del@.len() && (j as int) < n && !del@.contains(j)
                    ==> mtimes@[del@[a] as int] <= mtimes@[j as int],
        decreases excess - t,
    {
        let mut best: usize = 0;
        let mut found = false;
        let mut j: usize = 0;
        while j < n
            invariant
                0 <= j <= n,
                n == mtimes@.len(),
                del@.len() == t,
                t < excess <= n,
                found ==> (best as int) < n && !del@.contains(best),
                found ==> forall|k: usize|
                    (k as int) < j && !del@.contains(k) ==> mtimes@[best as int]
                        <= mtimes@[k as int],
                !found ==> forall|k: usize| (k as int) < j ==> del@.contains(k),
            decreases n - j,
        {
            if !vec_contains(&del, j) {
                if !found || *mtimes.get(j).unwrap() < *mtimes.get(best).unwrap() {
                    best = j;
                    found = true;
                }
            }
            j += 1;
        }
        if !found {
            proof {
                lemma_missing_index(del@, n);
                assert(false);
            }
        }
        let ghost del_old = del@;
        proof {
            assert(del_old.push(best).no_duplicates()) by {
                assert(!del_old.contains(best));
            }
        }
        del.push(best);
        proof {
            let dn = del@;
            assert forall|a: int, jx: usize|
                0 <= a < dn.len() && (jx as int) < n && !dn.contains(jx) implies mtimes@[dn[a]
                as int] <= mtimes@[jx as int] by {
                assert(!del_old.contains(jx)) by {
                    if del_old.contains(jx) {
                        let k = choose|k: int| 0 <= k < del_old.len() && del_old[k] == jx;
                        assert(dn[k] == jx);
                    }
                }
                if a < del_old.len() {
                    assert(dn[a] == del_old[a]);
                } else {
                    assert(dn[a] == best);
                }
            }
        }
        t += 1;
    }
    del
}

} // verus!
