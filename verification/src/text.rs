//! Character-level helpers used by every renderer: decimal rendering of
//! integers, prefix tests, and char-bounded truncation.

use vstd::prelude::*;

verus! {

/// `String::push`: appends one character.
#[verifier::external_body]
pub(crate) fn push_char(s: &mut String, c: char)
    ensures
        final(s)@ == old(s)@.push(c),
{
    s.push(c);
}

/// The characters of `s`, in order.
pub fn chars_of(s: &str) -> (r: Vec<char>)
    ensures
        r@ == s@,
{
    let mut r: Vec<char> = Vec::new();
    for c in it: s.chars()
        invariant
            r@ == it.seq().take(it.index() as int),
    {
        r.push(c);
    }
    r
}


/// Whether `a` and `b` hold the same characters.
pub fn eq_str(a: &String, b: &str) -> (r: bool)
    ensures
        r == (a@ == b@),
{
    let bs = b.to_owned();
    *a == bs
}

/// Whether the characters of `s` begin with those of `prefix`.
pub open spec fn starts_with(s: Seq<char>, prefix: Seq<char>) -> bool {
    prefix.len() <= s.len() && s.take(prefix.len() as int) == prefix
}

/// `str::starts_with` for a string prefix.
pub fn str_starts_with(s: &str, prefix: &str) -> (r: bool)
    ensures
        r == starts_with(s@, prefix@),
{
    let sc = chars_of(s);
    let pc = chars_of(prefix);
    if pc.len() > sc.len() {
        return false;
    }
    let mut i: usize = 0;
    while i < pc.len()
        invariant
            pc@ == prefix@,
            sc@ == s@,
            pc@.len() <= sc@.len(),
            0 <= i <= pc@.len(),
            forall|j: int| 0 <= j < i ==> sc@[j] == pc@[j],
        decreases pc.len() - i,
    {
        if sc[i] != pc[i] {
            assert(s@.take(prefix@.len() as int)[i as int] != prefix@[i as int]);
            return false;
        }
        i = i + 1;
    }
    assert(s@.take(prefix@.len() as int) =~= prefix@);
    true
}

/// The first `n` characters of `s` (all of them when it has fewer).
pub open spec fn take_chars(s: Seq<char>, n: nat) -> Seq<char> {
    if s.len() <= n {
        s
    } else {
        s.take(n as int)
    }
}

/// `s.chars().take(n).collect()`.
pub fn truncate_chars(s: &str, n: usize) -> (r: String)
    ensures
        r@ == take_chars(s@, n as nat),
{
    let mut r = String::new();
    let mut k: usize = 0;
    for c in it: s.chars()
        invariant
            it.seq() == s@,
            k == if it.index() <= n { it.index() } else { n as int },
            r@ == take_chars(it.seq().take(it.index() as int), n as nat),
    {
        if k < n {
            push_char(&mut r, c);
            k = k + 1;
        }
        proof {
            let before = it.seq().take(it.index() as int);
            let after = it.seq().take(it.index() + 1);
            assert(after.drop_last() =~= before);
            if it.index() + 1 <= n {
                assert(r@ =~= after);
            } else {
                assert(r@ =~= after.take(n as int));
            }
        }
    }
    assert(s@.take(s@.len() as int) =~= s@);
    r
}


/// `n` spaces.
pub open spec fn spaces(n: nat) -> Seq<char> {
    Seq::new(n, |i: int| ' ')
}

/// A text padded with spaces on the right to `width` characters (left as
/// it is where it is that wide already).
pub open spec fn pad_end(s: Seq<char>, width: nat) -> Seq<char> {
    if s.len() >= width {
        s
    } else {
        s + spaces((width - s.len()) as nat)
    }
}

/// A text padded with spaces on the left to `width` characters (left as it
/// is where it is that wide already).
pub open spec fn pad_start(s: Seq<char>, width: nat) -> Seq<char> {
    if s.len() >= width {
        s
    } else {
        spaces((width - s.len()) as nat) + s
    }
}

/// The length of the longest of some texts; zero where there are none.
pub open spec fn widest(cells: Seq<Seq<char>>) -> nat
    decreases cells.len(),
{
    if cells.len() == 0 {
        0
    } else {
        let w = widest(cells.drop_last());
        if cells.last().len() > w {
            cells.last().len()
        } else {
            w
        }
    }
}

/// No text is wider than the widest, and padding any of them to that width
/// gives exactly that width, keeping the text itself in front (padding on
/// the right) or at the end (padding on the left).
pub proof fn lemma_widest_pads(cells: Seq<Seq<char>>)
    ensures
        forall|k: int| 0 <= k < cells.len() ==> (#[trigger] cells[k]).len() <= widest(cells),
        forall|k: int|
            0 <= k < cells.len() ==> (#[trigger] pad_end(cells[k], widest(cells))).len() == widest(cells)
                && pad_end(cells[k], widest(cells)).take(cells[k].len() as int) == cells[k],
        forall|k: int|
            0 <= k < cells.len() ==> (#[trigger] pad_start(cells[k], widest(cells))).len() == widest(cells)
                && pad_start(cells[k], widest(cells)).skip(widest(cells) - cells[k].len()) == cells[k],
    decreases cells.len(),
{
    if cells.len() > 0 {
        lemma_widest_pads(cells.drop_last());
        let w = widest(cells);
        assert forall|k: int| 0 <= k < cells.len() implies (#[trigger] cells[k]).len() <= w by {
            if k < cells.len() - 1 {
                assert(cells.drop_last()[k] == cells[k]);
            }
        }
        assert forall|k: int| 0 <= k < cells.len() implies (#[trigger] pad_end(cells[k], w)).len() == w
            && pad_end(cells[k], w).take(cells[k].len() as int) == cells[k] by {
            assert(cells[k].len() <= w);
            assert(pad_end(cells[k], w).take(cells[k].len() as int) =~= cells[k]);
        }
        assert forall|k: int| 0 <= k < cells.len() implies (#[trigger] pad_start(cells[k], w)).len() == w
            && pad_start(cells[k], w).skip(w - cells[k].len()) == cells[k] by {
            assert(cells[k].len() <= w);
            assert(pad_start(cells[k], w).skip(w - cells[k].len()) =~= cells[k]);
        }
    }
}

/// The characters of each of some strings.
pub open spec fn texts_view(v: Seq<String>) -> Seq<Seq<char>> {
    v.map_values(|s: String| s@)
}

/// Appends `n` spaces.
pub fn push_spaces(out: &mut String, n: usize)
    ensures
        final(out)@ == old(out)@ + spaces(n as nat),
{
    let ghost base = out@;
    let mut k: usize = 0;
    while k < n
        invariant
            0 <= k <= n,
            out@ == base + spaces(k as nat),
        decreases n - k,
    {
        push_char(out, ' ');
        assert(out@ =~= base + spaces((k + 1) as nat));
        k = k + 1;
    }
}

/// Appends a text padded with spaces on the right to `width` characters.
pub fn push_pad_end(out: &mut String, s: &str, width: usize)
    ensures
        final(out)@ == old(out)@ + pad_end(s@, width as nat),
{
    let ghost base = out@;
    let n = s.unicode_len();
    out.append(s);
    if n < width {
        push_spaces(out, width - n);
        assert(out@ =~= base + pad_end(s@, width as nat));
    } else {
        assert(out@ =~= base + pad_end(s@, width as nat));
    }
}

/// Appends a text padded with spaces on the left to `width` characters.
pub fn push_pad_start(out: &mut String, s: &str, width: usize)
    ensures
        final(out)@ == old(out)@ + pad_start(s@, width as nat),
{
    let ghost base = out@;
    let n = s.unicode_len();
    if n < width {
        push_spaces(out, width - n);
    }
    out.append(s);
    assert(out@ =~= base + pad_start(s@, width as nat));
}

/// The length of the longest of some strings; zero where there are none.
pub fn widest_of(cells: &Vec<String>) -> (r: usize)
    ensures
        r == widest(texts_view(cells@)),
{
    let ghost v = texts_view(cells@);
    let mut w: usize = 0;
    let mut i: usize = 0;
    while i < cells.len()
        invariant
            0 <= i <= cells@.len(),
            v == texts_view(cells@),
            w == widest(v.take(i as int)),
        decreases cells.len() - i,
    {
        assert(v.take(i + 1).drop_last() =~= v.take(i as int));
        assert(v.take(i + 1).last() == cells@[i as int]@);
        let n = cells[i].as_str().unicode_len();
        if n > w {
            w = n;
        }
        i = i + 1;
    }
    assert(v.take(cells@.len() as int) =~= v);
    w
}

/// The character of a decimal digit.
pub open spec fn digit_char(d: nat) -> char {
    if d == 0 {
        '0'
    } else if d == 1 {
        '1'
    } else if d == 2 {
        '2'
    } else if d == 3 {
        '3'
    } else if d == 4 {
        '4'
    } else if d == 5 {
        '5'
    } else if d == 6 {
        '6'
    } else if d == 7 {
        '7'
    } else if d == 8 {
        '8'
    } else {
        '9'
    }
}

/// The decimal rendering of a natural number (`{}` on an unsigned integer).
pub open spec fn decimal(n: nat) -> Seq<char>
    decreases n,
{
    if n < 10 {
        seq![digit_char(n)]
    } else {
        decimal(n / 10).push(digit_char(n % 10))
    }
}

/// A text with no line break in it.
pub open spec fn one_line(s: Seq<char>) -> bool {
    forall|i: int| 0 <= i < s.len() ==> #[trigger] s[i] != '\n'
}

/// Two texts without a line break make one without a line break.
pub proof fn lemma_one_line_concat(a: Seq<char>, b: Seq<char>)
    requires
        one_line(a),
        one_line(b),
    ensures
        one_line(a + b),
{
    assert forall|i: int| 0 <= i < (a + b).len() implies #[trigger] (a + b)[i] != '\n' by {
        if i < a.len() {
            assert((a + b)[i] == a[i]);
        } else {
            assert((a + b)[i] == b[i - a.len()]);
        }
    }
}

/// A number's decimal text is made of the digits `0` to `9`, so it is one
/// line.
pub proof fn lemma_decimal_digits(n: nat)
    ensures
        forall|i: int| 0 <= i < decimal(n).len() ==> 48 <= (#[trigger] decimal(n)[i] as u32) <= 57,
        one_line(decimal(n)),
    decreases n,
{
    if n >= 10 {
        lemma_decimal_digits(n / 10);
        let d = decimal(n / 10);
        assert forall|i: int| 0 <= i < decimal(n).len() implies 48 <= (#[trigger] decimal(n)[i] as u32)
            <= 57 by {
            if i < d.len() {
                assert(decimal(n)[i] == d[i]);
            }
        }
    }
}

fn digit_of(d: u64) -> (c: char)
    requires
        d < 10,
    ensures
        c == digit_char(d as nat),
{
    if d == 0 {
        '0'
    } else if d == 1 {
        '1'
    } else if d == 2 {
        '2'
    } else if d == 3 {
        '3'
    } else if d == 4 {
        '4'
    } else if d == 5 {
        '5'
    } else if d == 6 {
        '6'
    } else if d == 7 {
        '7'
    } else if d == 8 {
        '8'
    } else {
        '9'
    }
}

/// Appends the decimal rendering of `n`.
pub fn push_u64(out: &mut String, n: u64)
    ensures
        final(out)@ == old(out)@ + decimal(n as nat),
    decreases n,
{
    if n >= 10 {
        push_u64(out, n / 10);
    }
    let ghost mid = out@;
    push_char(out, digit_of(n % 10));
    proof {
        if n >= 10 {
            assert(out@ =~= old(out)@ + decimal(n as nat));
        } else {
            assert(out@ =~= old(out)@ + decimal(n as nat));
        }
    }
}

/// Appends the decimal rendering of a count.
pub fn push_usize(out: &mut String, n: usize)
    ensures
        final(out)@ == old(out)@ + decimal(n as nat),
{
    push_u64(out, n as u64);
}

/// Strict lexicographic order on characters (the order of `String`'s `Ord`:
/// byte order of UTF-8 is code point order).
pub open spec fn lex_lt(a: Seq<char>, b: Seq<char>) -> bool
    decreases a.len(),
{
    if a.len() == 0 {
        b.len() > 0
    } else if b.len() == 0 {
        false
    } else if (a[0] as int) < (b[0] as int) {
        true
    } else if a[0] == b[0] {
        lex_lt(a.drop_first(), b.drop_first())
    } else {
        false
    }
}

/// `lex_lt` never holds both ways.
pub proof fn lemma_lex_asym(a: Seq<char>, b: Seq<char>)
    ensures
        !(lex_lt(a, b) && lex_lt(b, a)),
    decreases a.len(),
{
    if a.len() > 0 && b.len() > 0 && a[0] == b[0] {
        lemma_lex_asym(a.drop_first(), b.drop_first());
    }
}

/// `lex_lt` is transitive.
pub proof fn lemma_lex_trans(a: Seq<char>, b: Seq<char>, c: Seq<char>)
    requires
        lex_lt(a, b),
        lex_lt(b, c),
    ensures
        lex_lt(a, c),
    decreases a.len(),
{
    if a.len() > 0 && b.len() > 0 && c.len() > 0 && a[0] == b[0] && b[0] == c[0] {
        lemma_lex_trans(a.drop_first(), b.drop_first(), c.drop_first());
    }
}

/// `lex_lt` orders any two different sequences.
pub proof fn lemma_lex_total(a: Seq<char>, b: Seq<char>)
    requires
        a != b,
    ensures
        lex_lt(a, b) || lex_lt(b, a),
    decreases a.len(),
{
    if a.len() == 0 {
        assert(b.len() > 0) by {
            if b.len() == 0 {
                assert(a =~= b);
            }
        }
    } else if b.len() == 0 {
    } else if a[0] == b[0] {
        assert(a.drop_first() != b.drop_first()) by {
            if a.drop_first() == b.drop_first() {
                assert(a =~= seq![a[0]] + a.drop_first());
                assert(b =~= seq![b[0]] + b.drop_first());
            }
        }
        lemma_lex_total(a.drop_first(), b.drop_first());
    } else {
        assert((a[0] as int) != (b[0] as int));
    }
}

/// Whether `a` sorts strictly before `b` (`String`'s `Ord`).
pub fn str_lt(a: &String, b: &String) -> (r: bool)
    ensures
        r == lex_lt(a@, b@),
{
    let ac = chars_of(a.as_str());
    let bc = chars_of(b.as_str());
    let mut i: usize = 0;
    assert(a@.skip(0) =~= a@);
    assert(b@.skip(0) =~= b@);
    while i < ac.len() && i < bc.len() && ac[i] == bc[i]
        invariant
            ac@ == a@,
            bc@ == b@,
            0 <= i <= ac@.len(),
            i <= bc@.len(),
            lex_lt(a@, b@) == lex_lt(a@.skip(i as int), b@.skip(i as int)),
        decreases ac.len() - i,
    {
        proof {
            let sa = a@.skip(i as int);
            let sb = b@.skip(i as int);
            assert(sa.drop_first() =~= a@.skip(i + 1));
            assert(sb.drop_first() =~= b@.skip(i + 1));
        }
        i = i + 1;
    }
    let ghost sa = a@.skip(i as int);
    let ghost sb = b@.skip(i as int);
    if i == ac.len() {
        i < bc.len()
    } else if i == bc.len() {
        false
    } else {
        assert(sa[0] == ac@[i as int] && sb[0] == bc@[i as int]);
        ac[i] < bc[i]
    }
}

} // verus!
