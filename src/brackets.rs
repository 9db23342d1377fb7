//! Matching brackets by nesting depth, scanning forward from `[` and backward from `]`.
use vstd::prelude::*;

verus! {

/// How a symbol changes the nesting depth when read left to right.
pub open spec fn depth_delta(c: char) -> int {
    if c == '[' {
        1
    } else if c == ']' {
        -1
    } else {
        0
    }
}

/// The net nesting depth of `s[i..j]`: its `[` minus its `]`.
pub open spec fn nest(s: Seq<char>, i: int, j: int) -> int
    decreases j - i,
{
    if j <= i {
        0
    } else {
        nest(s, i, j - 1) + depth_delta(s[j - 1])
    }
}

/// `q` holds a `]` at depth zero relative to the `[` at `p`: everything strictly between
/// them is balanced.
pub open spec fn closes(s: Seq<char>, p: int, q: int) -> bool {
    &&& p < q < s.len()
    &&& s[q] == ']'
    &&& nest(s, p + 1, q) == 0
}

/// `q` holds a `[` at depth zero relative to the `]` at `p`.
pub open spec fn opens(s: Seq<char>, q: int, p: int) -> bool {
    &&& 0 <= q < p
    &&& s[q] == '['
    &&& nest(s, q + 1, p) == 0
}

/// Depth over adjacent ranges adds up.
pub proof fn lemma_nest_split(s: Seq<char>, i: int, k: int, j: int)
    requires
        i <= k <= j,
    ensures
        nest(s, i, j) == nest(s, i, k) + nest(s, k, j),
    decreases j - k,
{
    if j > k {
        lemma_nest_split(s, i, k, j - 1);
    }
}

/// Finds the partner of the `[` at `p`: the first `]` after it at depth zero, scanning
/// rightward. `None` when the scan reaches the end of the buffer.
pub fn find_matching_close(program: &Vec<char>, p: usize) -> (r: Option<usize>)
    requires
        p < program@.len(),
    ensures
        match r {
            Some(q) => closes(program@, p as int, q as int) && forall|k: int|
                p < k < q ==> !closes(program@, p as int, k),
            None => forall|k: int| !closes(program@, p as int, k),
        },
{
    let ghost s = program@;
    let n = program.len();
    let mut q: usize = p + 1;
    let mut depth: usize = 0;
    while q < n
        invariant
            p < q <= s.len(),
            n == s.len(),
            s == program@,
            depth == nest(s, p + 1, q as int),
            depth <= q - p - 1,
            forall|k: int| p < k < q ==> !closes(s, p as int, k),
        decreases s.len() - q,
    {
        let c = program[q];
        assert(nest(s, p + 1, q + 1) == nest(s, p + 1, q as int) + depth_delta(c));
        if c == '[' {
            depth = depth + 1;
        } else if c == ']' {
            if depth == 0 {
                return Some(q);
            }
            depth = depth - 1;
        }
        q = q + 1;
    }
    None
}

/// Finds the partner of the `]` at `p`: the nearest `[` before it at depth zero, scanning
/// leftward. `None` when the scan passes index 0.
pub fn find_matching_open(program: &Vec<char>, p: usize) -> (r: Option<usize>)
    requires
        p < program@.len(),
    ensures
        match r {
            Some(q) => opens(program@, q as int, p as int) && forall|k: int|
                q < k < p ==> !opens(program@, k, p as int),
            None => forall|k: int| !opens(program@, k, p as int),
        },
{
    let ghost s = program@;
    let mut q: usize = p;
    let mut depth: usize = 0;
    while q > 0
        invariant
            q <= p < s.len(),
            s == program@,
            depth == -nest(s, q as int, p as int),
            depth <= p - q,
            forall|k: int| q <= k < p ==> !opens(s, k, p as int),
        decreases q,
    {
        q = q - 1;
        let c = program[q];
        proof {
            lemma_nest_split(s, q as int, q + 1, p as int);
            assert(nest(s, q as int, q + 1) == depth_delta(c)) by {
                assert(nest(s, q as int, q as int) == 0);
            }
        }
        if c == ']' {
            depth = depth + 1;
        } else if c == '[' {
            if depth == 0 {
                return Some(q);
            }
            depth = depth - 1;
        }
    }
    None
}

} // verus!
