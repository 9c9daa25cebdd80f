//! Character-level text utilities shared by the two status parsers.
//!
//! Everything works on `Vec<char>` buffers whose view is a `Seq<char>`, so
//! that every executable scanning routine can be proved against a direct
//! specification over character sequences.

use vstd::prelude::*;

verus! {

/// The whitespace characters this library recognizes: the code points
/// with the Unicode `White_Space` property — the set `char::is_whitespace`
/// accepts.  Space, tab, line feed and carriage return are the ones that
/// occur in the CLI output the parsers consume.
pub open spec fn is_space_char(c: char) -> bool {
    let u = c as u32;
    u == 0x20 || u == 0x09 || u == 0x0A || u == 0x0B || u == 0x0C || u == 0x0D || u == 0x85
        || u == 0xA0 || u == 0x1680 || (0x2000 <= u && u <= 0x200A) || u == 0x2028 || u == 0x2029
        || u == 0x202F || u == 0x205F || u == 0x3000
}

/// Executable test for [`is_space_char`].
pub fn is_space(c: char) -> (b: bool)
    ensures
        b == is_space_char(c),
{
    let u = c as u32;
    u == 0x20 || u == 0x09 || u == 0x0A || u == 0x0B || u == 0x0C || u == 0x0D || u == 0x85
        || u == 0xA0 || u == 0x1680 || (0x2000 <= u && u <= 0x200A) || u == 0x2028 || u == 0x2029
        || u == 0x202F || u == 0x205F || u == 0x3000
}

/// The sequence with its leading whitespace removed.
pub open spec fn trim_front(s: Seq<char>) -> Seq<char>
    decreases s.len(),
{
    if s.len() > 0 && is_space_char(s[0]) {
        trim_front(s.drop_first())
    } else {
        s
    }
}

/// The sequence with its trailing whitespace removed.
pub open spec fn trim_back(s: Seq<char>) -> Seq<char>
    decreases s.len(),
{
    if s.len() > 0 && is_space_char(s.last()) {
        trim_back(s.drop_last())
    } else {
        s
    }
}

/// The sequence with whitespace removed from both ends.
pub open spec fn trimmed(s: Seq<char>) -> Seq<char> {
    trim_back(trim_front(s))
}

/// Copies the characters of `s` in the index range `[lo, hi)`.
pub fn copy_range(s: &Vec<char>, lo: usize, hi: usize) -> (r: Vec<char>)
    requires
        lo <= hi <= s.len(),
    ensures
        r@ == s@.subrange(lo as int, hi as int),
{
    let mut r: Vec<char> = Vec::new();
    let mut i: usize = lo;
    while i < hi
        invariant
            lo <= i <= hi <= s.len(),
            r@ == s@.subrange(lo as int, i as int),
        decreases hi - i,
    {
        r.push(s[i]);
        proof {
            assert(s@.subrange(lo as int, i as int).push(s@[i as int]) =~= s@.subrange(
                lo as int,
                i as int + 1,
            ));
        }
        i = i + 1;
    }
    r
}

/// Removes leading and trailing whitespace.
pub fn trim(s: &Vec<char>) -> (r: Vec<char>)
    ensures
        r@ == trimmed(s@),
{
    let n = s.len();
    proof {
        assert(s@.subrange(0, n as int) =~= s@);
    }
    let mut lo: usize = 0;
    while lo < n && is_space(s[lo])
        invariant
            0 <= lo <= n == s.len(),
            trim_front(s@) == trim_front(s@.subrange(lo as int, n as int)),
        decreases n - lo,
    {
        proof {
            assert(s@.subrange(lo as int, n as int).drop_first() =~= s@.subrange(
                lo as int + 1,
                n as int,
            ));
        }
        lo = lo + 1;
    }
    proof {
        // Either the range is empty or its first character is not whitespace,
        // so the leading trim of the remainder is the remainder itself.
        assert(trim_front(s@) == s@.subrange(lo as int, n as int));
    }
    let mut hi: usize = n;
    while hi > lo && is_space(s[hi - 1])
        invariant
            0 <= lo <= hi <= n == s.len(),
            trim_front(s@) == s@.subrange(lo as int, n as int),
            trim_back(s@.subrange(lo as int, n as int)) == trim_back(
                s@.subrange(lo as int, hi as int),
            ),
        decreases hi,
    {
        proof {
            assert(s@.subrange(lo as int, hi as int).drop_last() =~= s@.subrange(
                lo as int,
                hi as int - 1,
            ));
        }
        hi = hi - 1;
    }
    proof {
        assert(trim_back(s@.subrange(lo as int, hi as int)) == s@.subrange(lo as int, hi as int));
    }
    copy_range(s, lo, hi)
}

/// Index of the first newline in `s`, or `-1` if there is none.
pub open spec fn find_nl(s: Seq<char>) -> int
    decreases s.len(),
{
    if s.len() == 0 {
        -1
    } else if s[0] == '\n' {
        0
    } else {
        let r = find_nl(s.drop_first());
        if r == -1 {
            -1
        } else {
            r + 1
        }
    }
}

/// Index of the first whitespace character in `s`, or `-1` if there is none.
pub open spec fn find_sp(s: Seq<char>) -> int
    decreases s.len(),
{
    if s.len() == 0 {
        -1
    } else if is_space_char(s[0]) {
        0
    } else {
        let r = find_sp(s.drop_first());
        if r == -1 {
            -1
        } else {
            r + 1
        }
    }
}

/// `find_nl` returns the least index holding a newline, or `-1`.
pub proof fn lemma_find_nl(s: Seq<char>)
    ensures
        -1 <= find_nl(s) < s.len(),
        find_nl(s) >= 0 ==> s[find_nl(s)] == '\n' && (forall|j: int|
            0 <= j < find_nl(s) ==> s[j] != '\n'),
        find_nl(s) == -1 ==> (forall|j: int| 0 <= j < s.len() ==> s[j] != '\n'),
    decreases s.len(),
{
    if s.len() > 0 && s[0] != '\n' {
        let t = s.drop_first();
        lemma_find_nl(t);
        assert(forall|j: int| 0 < j < s.len() ==> s[j] == t[j - 1]);
        if find_nl(t) == -1 {
            assert forall|j: int| 0 <= j < s.len() implies s[j] != '\n' by {
                if j > 0 {
                    assert(s[j] == t[j - 1]);
                }
            }
        } else {
            let f = find_nl(s);
            assert(s[f] == t[f - 1]);
            assert forall|j: int| 0 <= j < f implies s[j] != '\n' by {
                if j > 0 {
                    assert(s[j] == t[j - 1]);
                }
            }
        }
    }
}

/// `find_sp` returns the least index holding whitespace, or `-1`.
pub proof fn lemma_find_sp(s: Seq<char>)
    ensures
        -1 <= find_sp(s) < s.len(),
        find_sp(s) >= 0 ==> is_space_char(s[find_sp(s)]) && (forall|j: int|
            0 <= j < find_sp(s) ==> !is_space_char(s[j])),
        find_sp(s) == -1 ==> (forall|j: int| 0 <= j < s.len() ==> !is_space_char(s[j])),
    decreases s.len(),
{
    if s.len() > 0 && !is_space_char(s[0]) {
        let t = s.drop_first();
        lemma_find_sp(t);
        assert(forall|j: int| 0 < j < s.len() ==> s[j] == t[j - 1]);
        if find_sp(t) == -1 {
            assert forall|j: int| 0 <= j < s.len() implies !is_space_char(s[j]) by {
                if j > 0 {
                    assert(s[j] == t[j - 1]);
                }
            }
        } else {
            let f = find_sp(s);
            assert(s[f] == t[f - 1]);
            assert forall|j: int| 0 <= j < f implies !is_space_char(s[j]) by {
                if j > 0 {
                    assert(s[j] == t[j - 1]);
                }
            }
        }
    }
}

/// The lines of `s`: the chunks between newline characters.  A text without
/// a newline is a single line; every newline ends a line, so a trailing
/// newline contributes a final empty line.
pub open spec fn split_lines(s: Seq<char>) -> Seq<Seq<char>>
    decreases s.len(),
    via split_lines_decreases
{
    let f = find_nl(s);
    if f == -1 {
        seq![s]
    } else {
        seq![s.take(f)] + split_lines(s.skip(f + 1))
    }
}

#[via_fn]
proof fn split_lines_decreases(s: Seq<char>) {
    lemma_find_nl(s);
}

/// The views of a sequence of character buffers.
pub open spec fn views_of(v: Seq<Vec<char>>) -> Seq<Seq<char>> {
    Seq::new(v.len(), |i: int| v[i]@)
}

/// Splits `s` into lines.  The element views of the result are exactly
/// [`split_lines`] of the view of `s`.
pub fn split_lines_vec(s: &Vec<char>) -> (r: Vec<Vec<char>>)
    ensures
        views_of(r@) == split_lines(s@),
{
    let n = s.len();
    let mut r: Vec<Vec<char>> = Vec::new();
    let ghost mut done: Seq<Seq<char>> = Seq::empty();
    let mut start: usize = 0;
    proof {
        assert(s@.subrange(0, n as int) =~= s@);
        assert(done + split_lines(s@) =~= split_lines(s@));
    }
    loop
        invariant_except_break
            split_lines(s@) == done + split_lines(s@.subrange(start as int, n as int)),
        invariant
            0 <= start <= n == s.len(),
            done.len() == r@.len(),
            forall|i: int| 0 <= i < r@.len() ==> r@[i]@ == #[trigger] done[i],
        ensures
            split_lines(s@) == done,
        decreases n - start,
    {
        let ghost rest = s@.subrange(start as int, n as int);
        let mut j: usize = start;
        while j < n && !(s[j] == '\n')
            invariant
                start <= j <= n == s.len(),
                forall|k: int| start <= k < j ==> s@[k] != '\n',
            decreases n - j,
        {
            j = j + 1;
        }
        proof {
            lemma_find_nl(rest);
            if j < n {
                // The newline at j is the first one in the remainder.
                assert(rest[j - start] == '\n');
                assert(find_nl(rest) == j - start);
                assert(rest.take(j - start) =~= s@.subrange(start as int, j as int));
                assert(rest.skip(j - start + 1) =~= s@.subrange(j as int + 1, n as int));
            } else {
                assert(find_nl(rest) == -1);
                assert(split_lines(rest) =~= seq![rest]);
            }
        }
        if j < n {
            let line = copy_range(s, start, j);
            r.push(line);
            proof {
                done = done.push(s@.subrange(start as int, j as int));
                assert(split_lines(s@) =~= done + split_lines(
                    s@.subrange(j as int + 1, n as int),
                ));
            }
            start = j + 1;
        } else {
            let line = copy_range(s, start, n);
            r.push(line);
            proof {
                done = done.push(rest);
                assert(split_lines(s@) =~= done);
            }
            break ;
        }
    }
    proof {
        assert(views_of(r@) =~= done);
    }
    r
}

/// The maximal whitespace-free tokens of `s`, in order.
pub open spec fn split_ws(s: Seq<char>) -> Seq<Seq<char>>
    decreases s.len(),
    via split_ws_decreases
{
    if s.len() == 0 {
        Seq::empty()
    } else if is_space_char(s[0]) {
        split_ws(s.drop_first())
    } else {
        let f = find_sp(s);
        if f == -1 {
            seq![s]
        } else {
            seq![s.take(f)] + split_ws(s.skip(f))
        }
    }
}

#[via_fn]
proof fn split_ws_decreases(s: Seq<char>) {
    if s.len() > 0 && !is_space_char(s[0]) {
        lemma_find_sp(s);
    }
}

/// Splits `s` on runs of whitespace.  The element views of the result are
/// exactly [`split_ws`] of the view of `s`.
pub fn split_ws_vec(s: &Vec<char>) -> (r: Vec<Vec<char>>)
    ensures
        views_of(r@) == split_ws(s@),
{
    let n = s.len();
    let mut r: Vec<Vec<char>> = Vec::new();
    let ghost mut done: Seq<Seq<char>> = Seq::empty();
    let mut i: usize = 0;
    proof {
        assert(s@.subrange(0, n as int) =~= s@);
        assert(done + split_ws(s@) =~= split_ws(s@));
    }
    loop
        invariant_except_break
            split_ws(s@) == done + split_ws(s@.subrange(i as int, n as int)),
        invariant
            0 <= i <= n == s.len(),
            done.len() == r@.len(),
            forall|k: int| 0 <= k < r@.len() ==> r@[k]@ == #[trigger] done[k],
        ensures
            split_ws(s@) == done,
        decreases n - i,
    {
        let ghost i0: int = i as int;
        while i < n && is_space(s[i])
            invariant
                i0 <= i <= n == s.len(),
                split_ws(s@) == done + split_ws(s@.subrange(i as int, n as int)),
            decreases n - i,
        {
            proof {
                assert(s@.subrange(i as int, n as int).drop_first() =~= s@.subrange(
                    i as int + 1,
                    n as int,
                ));
            }
            i = i + 1;
        }
        if i == n {
            proof {
                assert(done + split_ws(s@.subrange(i as int, n as int)) =~= done);
            }
            break ;
        }
        let mut j: usize = i;
        while j < n && !is_space(s[j])
            invariant
                i <= j <= n == s.len(),
                forall|k: int| i <= k < j ==> !is_space_char(s@[k]),
            decreases n - j,
        {
            j = j + 1;
        }
        let ghost rest = s@.subrange(i as int, n as int);
        proof {
            lemma_find_sp(rest);
            if j < n {
                assert(is_space_char(rest[j - i]));
                assert(find_sp(rest) == j - i);
                assert(rest.take(j - i) =~= s@.subrange(i as int, j as int));
                assert(rest.skip(j - i) =~= s@.subrange(j as int, n as int));
            } else {
                assert(find_sp(rest) == -1);
            }
        }
        let tok = copy_range(s, i, j);
        r.push(tok);
        proof {
            done = done.push(s@.subrange(i as int, j as int));
            if j < n {
                assert(split_ws(s@) =~= done + split_ws(s@.subrange(j as int, n as int)));
            } else {
                assert(rest =~= s@.subrange(i as int, j as int));
                assert(split_ws(rest) =~= seq![rest]);
                assert(split_ws(s@.subrange(j as int, n as int)) =~= Seq::<Seq<char>>::empty());
                assert(split_ws(s@) =~= done + split_ws(s@.subrange(j as int, n as int)));
            }
        }
        i = j;
    }
    proof {
        assert(views_of(r@) =~= done);
    }
    r
}

/// The parts joined with a single space between consecutive parts.
pub open spec fn join_spaced(parts: Seq<Seq<char>>) -> Seq<char>
    decreases parts.len(),
{
    if parts.len() == 0 {
        Seq::empty()
    } else if parts.len() == 1 {
        parts[0]
    } else {
        join_spaced(parts.drop_last()) + seq![' '] + parts.last()
    }
}

/// Appends all characters of `src` to `dst`.
pub fn push_all(dst: &mut Vec<char>, src: &Vec<char>)
    ensures
        final(dst)@ == old(dst)@ + src@,
{
    let mut i: usize = 0;
    proof {
        assert(dst@ =~= dst@ + src@.subrange(0, 0));
    }
    while i < src.len()
        invariant
            0 <= i <= src.len(),
            dst@ == old(dst)@ + src@.subrange(0, i as int),
        decreases src.len() - i,
    {
        dst.push(src[i]);
        proof {
            assert(old(dst)@ + src@.subrange(0, i as int + 1) =~= (old(dst)@ + src@.subrange(
                0,
                i as int,
            )).push(src@[i as int]));
        }
        i = i + 1;
    }
    proof {
        assert(src@.subrange(0, src@.len() as int) =~= src@);
    }
}

/// Joins the parts from index `from` on with single spaces.
pub fn join_from(parts: &Vec<Vec<char>>, from: usize) -> (r: Vec<char>)
    requires
        from <= parts@.len(),
    ensures
        r@ == join_spaced(views_of(parts@).skip(from as int)),
{
    let ghost model = views_of(parts@).skip(from as int);
    let mut r: Vec<char> = Vec::new();
    let mut k: usize = from;
    while k < parts.len()
        invariant
            from <= k <= parts@.len(),
            model == views_of(parts@).skip(from as int),
            r@ == join_spaced(model.subrange(0, k - from)),
        decreases parts@.len() - k,
    {
        if k > from {
            r.push(' ');
        }
        push_all(&mut r, &parts[k]);
        proof {
            let pre = model.subrange(0, k - from);
            let post = model.subrange(0, k + 1 - from);
            assert(post.drop_last() =~= pre);
            assert(post.last() == parts@[k as int]@);
            if k == from {
                assert(r@ =~= join_spaced(post));
            } else {
                assert(r@ =~= join_spaced(pre) + seq![' '] + parts@[k as int]@);
            }
        }
        k = k + 1;
    }
    proof {
        assert(model.subrange(0, model.len() as int) =~= model);
    }
    r
}

/// `sub` occurs in `s` starting at index `i`.
pub open spec fn contains_at(s: Seq<char>, sub: Seq<char>, i: int) -> bool {
    0 <= i && i + sub.len() <= s.len() && s.subrange(i, i + sub.len()) == sub
}

/// `sub` occurs somewhere in `s`.
pub open spec fn contains_seq(s: Seq<char>, sub: Seq<char>) -> bool {
    exists|i: int| contains_at(s, sub, i)
}

/// Substring search: decides [`contains_seq`].
pub fn contains_sub(s: &Vec<char>, sub: &Vec<char>) -> (b: bool)
    ensures
        b == contains_seq(s@, sub@),
{
    let n = s.len();
    let m = sub.len();
    if m > n {
        proof {
            assert(forall|i: int| !contains_at(s@, sub@, i));
        }
        return false;
    }
    let mut i: usize = 0;
    while i <= n - m
        invariant
            m <= n == s.len(),
            m == sub.len(),
            0 <= i <= n - m + 1,
            forall|k: int| 0 <= k < i ==> !contains_at(s@, sub@, k),
        decreases n + 1 - i,
    {
        let mut j: usize = 0;
        while j < m && s[i + j] == sub[j]
            invariant
                0 <= j <= m == sub.len(),
                i + m <= n == s.len(),
                forall|k: int| 0 <= k < j ==> s@[i + k] == sub@[k],
            decreases m - j,
        {
            j = j + 1;
        }
        if j == m {
            proof {
                assert(s@.subrange(i as int, i + m) =~= sub@);
                assert(contains_at(s@, sub@, i as int));
            }
            return true;
        }
        proof {
            assert(s@.subrange(i as int, i + m)[j as int] == s@[i + j]);
            assert(!contains_at(s@, sub@, i as int));
        }
        i = i + 1;
    }
    proof {
        assert(forall|k: int| !contains_at(s@, sub@, k));
    }
    false
}

/// `c` is a decimal digit.
pub open spec fn is_digit_char(c: char) -> bool {
    48 <= c as u32 <= 57
}

/// The numeric value of a digit character.
pub open spec fn digit_val(c: char) -> int {
    c as u32 - 48
}

/// Every character of `s` is a decimal digit.
pub open spec fn all_digits(s: Seq<char>) -> bool {
    forall|i: int| 0 <= i < s.len() ==> is_digit_char(s[i])
}

/// The value of a digit string read in base ten.
pub open spec fn digits_val(s: Seq<char>) -> int
    decreases s.len(),
{
    if s.len() == 0 {
        0
    } else {
        digits_val(s.drop_last()) * 10 + digit_val(s.last())
    }
}

/// The value of a digit string is never negative.
pub proof fn lemma_digits_val_nonneg(s: Seq<char>)
    requires
        all_digits(s),
    ensures
        digits_val(s) >= 0,
    decreases s.len(),
{
    if s.len() > 0 {
        lemma_digits_val_nonneg(s.drop_last());
    }
}

/// Extending a digit string cannot decrease its value.
pub proof fn lemma_digits_val_prefix(s: Seq<char>, k: int)
    requires
        all_digits(s),
        0 <= k <= s.len(),
    ensures
        digits_val(s.take(k)) <= digits_val(s),
    decreases s.len() - k,
{
    if k < s.len() {
        let a = s.take(k);
        let b = s.take(k + 1);
        assert(b.drop_last() =~= a);
        assert(all_digits(a));
        lemma_digits_val_nonneg(a);
        assert(digits_val(b) == digits_val(a) * 10 + digit_val(b.last()));
        lemma_digits_val_prefix(s, k + 1);
    } else {
        assert(s.take(k) =~= s);
    }
}

/// A nonempty all-digit string whose value fits in a `u32` parses to that
/// value; anything else does not parse.
pub open spec fn parse_u32_digits(s: Seq<char>) -> Option<u32> {
    if s.len() > 0 && all_digits(s) && digits_val(s) <= u32::MAX {
        Some(digits_val(s) as u32)
    } else {
        None
    }
}

/// Decimal parsing of an unsigned integer: an optional leading `+` sign
/// followed by digits.
pub open spec fn parse_u32_str(s: Seq<char>) -> Option<u32> {
    if s.len() >= 1 && s[0] == '+' {
        parse_u32_digits(s.drop_first())
    } else {
        parse_u32_digits(s)
    }
}

/// Parses the digits of `s` from index `lo` on.
fn parse_digits_from(s: &Vec<char>, lo: usize) -> (r: Option<u32>)
    requires
        lo <= s.len(),
    ensures
        r == parse_u32_digits(s@.skip(lo as int)),
{
    let ghost d = s@.skip(lo as int);
    let n = s.len();
    if lo == n {
        return None;
    }
    let mut acc: u32 = 0;
    let mut i = lo;
    while i < n
        invariant
            lo <= i <= n == s.len(),
            d == s@.skip(lo as int),
            all_digits(d.take(i - lo)),
            acc == digits_val(d.take(i - lo)),
        decreases n - i,
    {
        let c = s[i];
        let u = c as u32;
        proof {
            assert(d.take(i + 1 - lo).drop_last() =~= d.take(i - lo));
            assert(d.take(i + 1 - lo).last() == d[i - lo] == s@[i as int]);
        }
        if !(48 <= u && u <= 57) {
            proof {
                assert(!is_digit_char(d[i - lo]));
            }
            return None;
        }
        proof {
            assert(is_digit_char(d[i - lo]));
            assert forall|x: int| 0 <= x < i + 1 - lo implies is_digit_char(
                #[trigger] d.take(i + 1 - lo)[x],
            ) by {
                if x < i - lo {
                    assert(d.take(i + 1 - lo)[x] == d.take(i - lo)[x]);
                } else {
                    assert(d.take(i + 1 - lo)[x] == d[i - lo]);
                }
            }
            assert(all_digits(d.take(i + 1 - lo)));
        }
        let dv: u32 = u - 48;
        if acc > (u32::MAX - dv) / 10 {
            proof {
                assert(acc * 10 + dv > u32::MAX) by (nonlinear_arith)
                    requires
                        acc > (u32::MAX - dv) / 10,
                        dv <= 9,
                ;
                assert(all_digits(d.take(i + 1 - lo)));
                assert(digits_val(d.take(i + 1 - lo)) > u32::MAX);
                if all_digits(d) {
                    lemma_digits_val_prefix(d, i + 1 - lo);
                }
            }
            return None;
        }
        proof {
            assert(acc * 10 + dv <= u32::MAX) by (nonlinear_arith)
                requires
                    acc <= (u32::MAX - dv) / 10,
                    dv <= 9,
            ;
        }
        acc = acc * 10 + dv;
        i = i + 1;
    }
    proof {
        assert(d.take(n - lo as int) =~= d);
    }
    Some(acc)
}

/// Parses `s` as a decimal `u32`, an optional leading `+` sign allowed.
pub fn parse_u32(s: &Vec<char>) -> (r: Option<u32>)
    ensures
        r == parse_u32_str(s@),
{
    if s.len() >= 1 && s[0] == '+' {
        proof {
            assert(s@.skip(1) =~= s@.drop_first());
        }
        parse_digits_from(s, 1)
    } else {
        proof {
            assert(s@.skip(0) =~= s@);
        }
        parse_digits_from(s, 0)
    }
}

/// Relies on `String::push` from std: it appends the character at the end
/// of the string, so the new view is the old view extended by `c`.
pub assume_specification[ String::push ](s: &mut String, c: char)
    ensures
        final(s)@ == old(s)@.push(c),
;

/// The characters of `s`, as an owned buffer.
pub fn to_chars(s: &str) -> (r: Vec<char>)
    ensures
        r@ == s@,
{
    let n = s.unicode_len();
    let mut r: Vec<char> = Vec::new();
    let mut i: usize = 0;
    while i < n
        invariant
            0 <= i <= n,
            n == s@.len(),
            r@ == s@.take(i as int),
        decreases n - i,
    {
        let c = s.get_char(i);
        r.push(c);
        proof {
            assert(s@.take(i + 1) =~= s@.take(i as int).push(s@[i as int]));
        }
        i = i + 1;
    }
    proof {
        assert(s@.take(n as int) =~= s@);
    }
    r
}

/// The buffer contents as an owned string.
pub fn chars_to_string(cs: &Vec<char>) -> (r: String)
    ensures
        r@ == cs@,
{
    let mut r = String::new();
    let mut i: usize = 0;
    while i < cs.len()
        invariant
            0 <= i <= cs.len(),
            r@ == cs@.take(i as int),
        decreases cs.len() - i,
    {
        r.push(cs[i]);
        proof {
            assert(cs@.take(i + 1) =~= cs@.take(i as int).push(cs@[i as int]));
        }
        i = i + 1;
    }
    proof {
        assert(cs@.take(cs@.len() as int) =~= cs@);
    }
    r
}

/// Character-wise equality of two buffers.
pub fn chars_eq(a: &Vec<char>, b: &Vec<char>) -> (r: bool)
    ensures
        r == (a@ == b@),
{
    if a.len() != b.len() {
        return false;
    }
    let mut i: usize = 0;
    while i < a.len()
        invariant
            0 <= i <= a.len() == b.len(),
            forall|k: int| 0 <= k < i ==> a@[k] == b@[k],
        decreases a.len() - i,
    {
        if a[i] != b[i] {
            return false;
        }
        i = i + 1;
    }
    proof {
        assert(a@ =~= b@);
    }
    true
}

/// The digit character for a value between 0 and 9.
pub open spec fn digit_char(d: int) -> char {
    if d == 0 {
        '0'
    } else if d == 1 {
        '1'
    } else if d == 2 {
        '2'
    } else if d == 3 {
        '3'
    } else if d == 4 {
        '4'
    } else if d == 5 {
        '5'
    } else if d == 6 {
        '6'
    } else if d == 7 {
        '7'
    } else if d == 8 {
        '8'
    } else {
        '9'
    }
}

/// Executable digit character.
fn digit_char_of(d: u32) -> (c: char)
    requires
        d <= 9,
    ensures
        c == digit_char(d as int),
{
    if d == 0 {
        '0'
    } else if d == 1 {
        '1'
    } else if d == 2 {
        '2'
    } else if d == 3 {
        '3'
    } else if d == 4 {
        '4'
    } else if d == 5 {
        '5'
    } else if d == 6 {
        '6'
    } else if d == 7 {
        '7'
    } else if d == 8 {
        '8'
    } else {
        '9'
    }
}

/// The decimal representation of `n`, most significant digit first.
pub open spec fn dec_rep(n: nat) -> Seq<char>
    decreases n,
{
    if n < 10 {
        seq![digit_char(n as int)]
    } else {
        dec_rep(n / 10).push(digit_char((n % 10) as int))
    }
}

/// Formats `n` in decimal.
pub fn u32_to_string(n: u32) -> (r: String)
    ensures
        r@ == dec_rep(n as nat),
{
    let mut digits: Vec<char> = Vec::new();
    let ghost mut suffix: Seq<char> = Seq::empty();
    let mut m: u32 = n;
    proof {
        assert(dec_rep(n as nat) + suffix =~= dec_rep(n as nat));
    }
    loop
        invariant_except_break
            dec_rep(n as nat) == dec_rep(m as nat) + suffix,
        invariant
            digits@.len() == suffix.len(),
            forall|i: int|
                0 <= i < suffix.len() ==> digits@[i] == suffix[suffix.len() - 1 - i],
        ensures
            dec_rep(n as nat) == suffix,
        decreases m,
    {
        let dv: u32 = m % 10;
        let c = digit_char_of(dv);
        digits.push(c);
        proof {
            suffix = seq![digit_char(dv as int)] + suffix;
        }
        let m0 = m;
        m = m / 10;
        proof {
            if m0 < 10 {
                assert(dec_rep(n as nat) =~= suffix);
            } else {
                assert(dec_rep(m0 as nat) == dec_rep((m0 / 10) as nat).push(
                    digit_char((m0 % 10) as int),
                ));
                assert(dec_rep(m as nat) + suffix =~= dec_rep(n as nat));
            }
        }
        if m == 0 {
            break ;
        }
    }
    let mut r = String::new();
    let len = digits.len();
    let mut k: usize = 0;
    while k < len
        invariant
            0 <= k <= len == digits@.len() == suffix.len(),
            dec_rep(n as nat) == suffix,
            forall|i: int|
                0 <= i < suffix.len() ==> digits@[i] == suffix[suffix.len() - 1 - i],
            r@.len() == k,
            forall|i: int| 0 <= i < k ==> r@[i] == suffix[i],
        decreases len - k,
    {
        r.push(digits[len - 1 - k]);
        k = k + 1;
    }
    proof {
        assert(r@ =~= suffix);
    }
    r
}

} // verus!
