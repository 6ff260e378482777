//! SQL LIKE pattern matching: `%` matches any run of characters, `_` any one
//! character, every other character itself.

use vstd::prelude::*;

verus! {

/// Whether `s[j..]` matches the pattern `p[i..]`.
pub open spec fn like_from(p: Seq<char>, s: Seq<char>, i: int, j: int) -> bool
    decreases (p.len() - i) + (s.len() - j),
{
    if i < 0 || j < 0 || i > p.len() || j > s.len() {
        false
    } else if i == p.len() {
        j == s.len()
    } else if p[i] == '%' {
        like_from(p, s, i + 1, j) || (j < s.len() && like_from(p, s, i, j + 1))
    } else if j == s.len() {
        false
    } else if p[i] == '_' || p[i] == s[j] {
        like_from(p, s, i + 1, j + 1)
    } else {
        false
    }
}

/// Whether `s` matches the pattern `p`.
pub open spec fn like(p: Seq<char>, s: Seq<char>) -> bool {
    like_from(p, s, 0, 0)
}

/// The entry `k` of a row of the matching table, whose last entry is kept apart.
fn table_at(row: &Vec<bool>, last: bool, k: usize) -> (r: bool)
    requires
        k <= row@.len(),
    ensures
        r == if k == row@.len() { last } else { row@[k as int] },
{
    if k == row.len() { last } else { row[k] }
}

/// Whether the characters `s` match the pattern characters `p`.
pub fn like_chars(p: &Vec<char>, s: &Vec<char>) -> (r: bool)
    ensures
        r == like(p@, s@),
{
    let m = p.len();
    let n = s.len();
    // Row i of the table: entry k == like_from(p, s, i, k), for k < n in the
    // vector and k == n apart.
    let mut next: Vec<bool> = Vec::new();
    let mut j: usize = 0;
    while j < n
        invariant
            n == s@.len(),
            m == p@.len(),
            j <= n,
            next@.len() == j,
            forall|k: int| 0 <= k < j ==> next@[k] == like_from(p@, s@, m as int, k),
        decreases n - j,
    {
        next.push(false);
        j += 1;
    }
    let mut next_last = true;
    let mut i = m;
    while i > 0
        invariant
            n == s@.len(),
            m == p@.len(),
            i <= m,
            next@.len() == n,
            forall|k: int| 0 <= k < n ==> next@[k] == like_from(p@, s@, i as int, k),
            next_last == like_from(p@, s@, i as int, n as int),
        decreases i,
    {
        let ii = i - 1;
        let pc = p[ii];
        let cur_last = pc == '%' && next_last;
        let mut cur: Vec<bool> = Vec::new();
        let mut k: usize = 0;
        while k < n
            invariant
                k <= n,
                cur@.len() == k,
            decreases n - k,
        {
            cur.push(false);
            k += 1;
        }
        let mut kk = n;
        while kk > 0
            invariant
                n == s@.len(),
                m == p@.len(),
                ii < m,
                pc == p@[ii as int],
                kk <= n,
                cur@.len() == n,
                next@.len() == n,
                forall|k: int| 0 <= k < n ==> next@[k] == like_from(p@, s@, ii + 1, k),
                next_last == like_from(p@, s@, ii + 1, n as int),
                cur_last == like_from(p@, s@, ii as int, n as int),
                forall|k: int| kk <= k < n ==> cur@[k] == like_from(p@, s@, ii as int, k),
            decreases kk,
        {
            let k = kk - 1;
            let v = if pc == '%' {
                next[k] || table_at(&cur, cur_last, k + 1)
            } else if pc == '_' || pc == s[k] {
                table_at(&next, next_last, k + 1)
            } else {
                false
            };
            cur.set(k, v);
            kk = k;
        }
        next = cur;
        next_last = cur_last;
        i = ii;
    }
    table_at(&next, next_last, 0)
}

} // verus!
