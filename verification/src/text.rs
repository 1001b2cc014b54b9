//! Text utilities over character vectors.
//!
//! The parsers and the virtual machine work on `Vec<char>`, whose view is
//! the same `Seq<char>` that `String` and `&str` views use, so contracts
//! connect directly to string views.

use vstd::prelude::*;

verus! {

/// Relies on str::chars: yields exactly the characters of the string, in
/// order.
#[verifier::external_body]
pub fn str_chars(s: &str) -> (v: Vec<char>)
    ensures
        v@ == s@,
{
    s.chars().collect()
}

/// Relies on String::from_iter over characters: builds the string holding
/// exactly the given characters, in order.
#[verifier::external_body]
pub fn chars_to_string(v: &Vec<char>) -> (s: String)
    ensures
        s@ == v@,
{
    v.iter().collect()
}

/// Horizontal white space and the carriage return.
pub open spec fn spec_is_space(c: char) -> bool {
    c == ' ' || c == '\t' || c == '\r'
}

/// Whether `c` is a space, a tab or a carriage return.
pub fn is_space(c: char) -> (r: bool)
    ensures
        r == spec_is_space(c),
{
    c == ' ' || c == '\t' || c == '\r'
}

/// First index at or after `from` holding `c`, or the length.
pub open spec fn find_char(s: Seq<char>, from: int, c: char) -> int
    decreases s.len() - from when from <= s.len()
{
    if 0 <= from < s.len() {
        if s[from] == c {
            from
        } else {
            find_char(s, from + 1, c)
        }
    } else {
        from
    }
}

/// The found index lies between `from` and the length.
pub proof fn lemma_find_char_range(s: Seq<char>, from: int, c: char)
    requires
        0 <= from <= s.len(),
    ensures
        from <= find_char(s, from, c) <= s.len(),
    decreases s.len() - from,
{
    if from < s.len() && s[from] != c {
        lemma_find_char_range(s, from + 1, c);
    }
}

/// Find the first occurrence of `c` at or after `from`.
pub fn find_char_exec(s: &Vec<char>, from: usize, c: char) -> (r: usize)
    requires
        from <= s@.len(),
    ensures
        r as int == find_char(s@, from as int, c),
        from <= r <= s@.len(),
{
    let mut i: usize = from;
    while i < s.len()
        invariant
            from <= i <= s@.len(),
            find_char(s@, from as int, c) == find_char(s@, i as int, c),
            forall|j: int| from <= j < i ==> s@[j] != c,
        decreases s@.len() - i,
    {
        if s[i] == c {
            return i;
        }
        i = i + 1;
    }
    i
}

/// First index at or after `from` holding something other than white
/// space, or the length.
pub open spec fn skip_spaces(s: Seq<char>, from: int) -> int
    decreases s.len() - from when from <= s.len()
{
    if 0 <= from < s.len() && spec_is_space(s[from]) {
        skip_spaces(s, from + 1)
    } else {
        from
    }
}

/// The skipped-to index lies between `from` and the length.
pub proof fn lemma_skip_spaces_range(s: Seq<char>, from: int)
    requires
        0 <= from <= s.len(),
    ensures
        from <= skip_spaces(s, from) <= s.len(),
    decreases s.len() - from,
{
    if from < s.len() && spec_is_space(s[from]) {
        lemma_skip_spaces_range(s, from + 1);
    }
}

/// Skip white space from `from`.
pub fn skip_spaces_exec(s: &Vec<char>, from: usize) -> (r: usize)
    requires
        from <= s@.len(),
    ensures
        r as int == skip_spaces(s@, from as int),
        from <= r <= s@.len(),
{
    let mut i: usize = from;
    while i < s.len() && is_space(s[i])
        invariant
            from <= i <= s@.len(),
            skip_spaces(s@, from as int) == skip_spaces(s@, i as int),
        decreases s@.len() - i,
    {
        i = i + 1;
    }
    i
}

/// Last index whose suffix is all white space: the end of the trimmed
/// text.
pub open spec fn trim_end_idx(s: Seq<char>, upto: int) -> int
    decreases upto,
{
    if 0 < upto <= s.len() && spec_is_space(s[upto - 1]) {
        trim_end_idx(s, upto - 1)
    } else {
        upto
    }
}

/// The trimmed end lies between zero and `upto`.
pub proof fn lemma_trim_end_range(s: Seq<char>, upto: int)
    requires
        0 <= upto <= s.len(),
    ensures
        0 <= trim_end_idx(s, upto) <= upto,
    decreases upto,
{
    if 0 < upto && spec_is_space(s[upto - 1]) {
        lemma_trim_end_range(s, upto - 1);
    }
}

/// Walk back over trailing white space.
pub fn trim_end_exec(s: &Vec<char>, upto: usize) -> (r: usize)
    requires
        upto <= s@.len(),
    ensures
        r as int == trim_end_idx(s@, upto as int),
        r <= upto,
{
    let mut i: usize = upto;
    while i > 0 && is_space(s[i - 1])
        invariant
            i <= upto <= s@.len(),
            trim_end_idx(s@, upto as int) == trim_end_idx(s@, i as int),
        decreases i,
    {
        i = i - 1;
    }
    i
}

/// The text trimmed of leading and trailing white space.
pub open spec fn spec_trim(s: Seq<char>) -> Seq<char> {
    let lo = skip_spaces(s, 0);
    let hi = trim_end_idx(s, s.len() as int);
    if lo <= hi {
        s.subrange(lo, hi)
    } else {
        Seq::<char>::empty()
    }
}

/// Copy of `s[i..j)`.
pub fn subvec(s: &Vec<char>, i: usize, j: usize) -> (r: Vec<char>)
    requires
        i <= j <= s@.len(),
    ensures
        r@ == s@.subrange(i as int, j as int),
{
    let mut r: Vec<char> = Vec::new();
    let mut k: usize = i;
    while k < j
        invariant
            i <= k <= j <= s@.len(),
            r@ == s@.subrange(i as int, k as int),
        decreases j - k,
    {
        r.push(s[k]);
        proof {
            assert(r@ =~= s@.subrange(i as int, k + 1));
        }
        k = k + 1;
    }
    r
}

/// Trim white space from both ends.
pub fn trim(s: &Vec<char>) -> (r: Vec<char>)
    ensures
        r@ == spec_trim(s@),
{
    let lo = skip_spaces_exec(s, 0);
    let hi = trim_end_exec(s, s.len());
    if lo <= hi {
        subvec(s, lo, hi)
    } else {
        proof {
            assert(Seq::<char>::empty() =~= spec_trim(s@));
        }
        Vec::new()
    }
}

/// The lines of `s`: pieces between newline terminators, the last piece
/// kept only when non-empty.
pub open spec fn split_lines(s: Seq<char>) -> Seq<Seq<char>>
    decreases s.len(),
{
    if s.len() == 0 {
        Seq::<Seq<char>>::empty()
    } else {
        let i = find_char(s, 0, '\n');
        if 0 <= i < s.len() {
            seq![s.subrange(0, i)] + split_lines(s.subrange(i + 1, s.len() as int))
        } else {
            seq![s]
        }
    }
}

/// Split into lines at newline terminators.
pub fn split_lines_exec(s: &Vec<char>) -> (r: Vec<Vec<char>>)
    ensures
        r@.map_values(|l: Vec<char>| l@) == split_lines(s@),
    decreases s@.len(),
{
    let mut r: Vec<Vec<char>> = Vec::new();
    if s.len() == 0 {
        proof {
            assert(r@.map_values(|l: Vec<char>| l@) =~= split_lines(s@));
        }
        return r;
    }
    let i = find_char_exec(s, 0, '\n');
    proof {
        lemma_find_char_range(s@, 0, '\n');
    }
    if i == s.len() {
        let piece = subvec(s, 0, i);
        proof {
            assert(piece@ =~= s@);
        }
        r.push(piece);
        proof {
            assert(r@.map_values(|l: Vec<char>| l@) =~= split_lines(s@));
        }
        return r;
    }
    let piece = subvec(s, 0, i);
    let rest = subvec(s, i + 1, s.len());
    let mut tail = split_lines_exec(&rest);
    r.push(piece);
    let ghost piece_view = piece@;
    let n = tail.len();
    let mut k: usize = 0;
    while k < n
        invariant
            k <= n == tail@.len(),
            r@.len() == k + 1,
            r@[0]@ == piece_view,
            forall|j: int| 0 <= j < k ==> r@[j + 1]@ == tail@[j]@,
        decreases n - k,
    {
        let item = tail[k].clone();
        assert(item@ == tail@[k as int]@);
        r.push(item);
        k = k + 1;
    }
    proof {
        assert(r@.map_values(|l: Vec<char>| l@) =~= split_lines(s@)) by {
            let lhs = r@.map_values(|l: Vec<char>| l@);
            let rhs = split_lines(s@);
            assert(rhs == seq![s@.subrange(0, i as int)] + split_lines(
                s@.subrange(i + 1, s@.len() as int),
            ));
            assert(rest@ == s@.subrange(i + 1, s@.len() as int));
            assert(tail@.map_values(|l: Vec<char>| l@) == split_lines(rest@));
            assert(lhs.len() == rhs.len());
            assert forall|j: int| 0 <= j < lhs.len() implies lhs[j] == rhs[j] by {
                if j == 0 {
                } else {
                    assert(r@[j]@ == tail@[j - 1]@);
                    assert(tail@.map_values(|l: Vec<char>| l@)[j - 1] == tail@[j - 1]@);
                }
            };
        };
    }
    r
}

/// The space-separated tokens of `s`, empty pieces dropped (so runs of
/// spaces collapse).
pub open spec fn tokenize(s: Seq<char>) -> Seq<Seq<char>>
    decreases s.len(),
{
    if s.len() == 0 {
        Seq::<Seq<char>>::empty()
    } else {
        let i = find_char(s, 0, ' ');
        if 0 <= i < s.len() {
            let head = s.subrange(0, i);
            let rest = tokenize(s.subrange(i + 1, s.len() as int));
            if head.len() == 0 {
                rest
            } else {
                seq![head] + rest
            }
        } else {
            if s.len() == 0 {
                Seq::<Seq<char>>::empty()
            } else {
                seq![s]
            }
        }
    }
}

/// Split on single spaces, dropping empty tokens.
pub fn tokenize_exec(s: &Vec<char>) -> (r: Vec<Vec<char>>)
    ensures
        r@.map_values(|l: Vec<char>| l@) == tokenize(s@),
    decreases s@.len(),
{
    let mut r: Vec<Vec<char>> = Vec::new();
    if s.len() == 0 {
        proof {
            assert(r@.map_values(|l: Vec<char>| l@) =~= tokenize(s@));
        }
        return r;
    }
    let i = find_char_exec(s, 0, ' ');
    proof {
        lemma_find_char_range(s@, 0, ' ');
    }
    let head = subvec(s, 0, i);
    let mut tail: Vec<Vec<char>> = if i == s.len() {
        Vec::new()
    } else {
        let rest = subvec(s, i + 1, s.len());
        tokenize_exec(&rest)
    };
    let ghost head_view = head@;
    if head.len() > 0 {
        r.push(head);
    }
    let n = tail.len();
    let mut k: usize = 0;
    let ghost base: int = r@.len() as int;
    while k < n
        invariant
            k <= n == tail@.len(),
            r@.len() == base + k,
            forall|j: int| 0 <= j < k ==> r@[base + j]@ == tail@[j]@,
            base == if head_view.len() == 0 {
                0int
            } else {
                1int
            },
            base == 1 ==> r@[0]@ == head_view,
        decreases n - k,
    {
        let item = tail[k].clone();
        assert(item@ == tail@[k as int]@);
        r.push(item);
        k = k + 1;
    }
    proof {
        let lhs = r@.map_values(|l: Vec<char>| l@);
        let rhs = tokenize(s@);
        let fi = find_char(s@, 0, ' ');
        if (i as int) < s@.len() {
            assert(tail@.map_values(|l: Vec<char>| l@) == tokenize(
                s@.subrange(i + 1, s@.len() as int),
            ));
        } else {
            assert(tail@.map_values(|l: Vec<char>| l@) =~= Seq::<Seq<char>>::empty());
        }
        assert(lhs =~= rhs) by {
            assert(lhs.len() == rhs.len());
            assert forall|j: int| 0 <= j < lhs.len() implies lhs[j] == rhs[j] by {
                if base == 1 && j == 0 {
                } else {
                    assert(r@[j]@ == tail@[j - base]@);
                    assert(tail@.map_values(|l: Vec<char>| l@)[j - base] == tail@[j - base]@);
                }
            };
        };
    }
    r
}

/// Compare two strings by their characters.
pub fn str_eq(a: &str, b: &str) -> (r: bool)
    ensures
        r == (a@ == b@),
{
    let av = str_chars(a);
    let bv = str_chars(b);
    if av.len() != bv.len() {
        proof {
            assert(a@.len() != b@.len());
        }
        return false;
    }
    let n = av.len();
    let mut i: usize = 0;
    while i < n
        invariant
            i <= n == av@.len(),
            n == bv@.len(),
            av@ == a@,
            bv@ == b@,
            forall|j: int| 0 <= j < i ==> av@[j] == bv@[j],
        decreases n - i,
    {
        if av[i] != bv[i] {
            proof {
                assert(a@[i as int] != b@[i as int]);
            }
            return false;
        }
        i = i + 1;
    }
    proof {
        assert(a@ =~= b@);
    }
    true
}

} // verus!
