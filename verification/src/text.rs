//! Text building blocks of the log format: character pushes, decimal
//! rendering of integers and the comment continuation of multi-line text.

use vstd::prelude::*;

verus! {

/// Appends one character to `s` (std's `String::push`).
#[verifier::external_body]
pub(crate) fn push_char(s: &mut String, c: char)
    ensures
        final(s)@ == old(s)@.push(c),
{
    s.push(c);
}

/// The character of a decimal digit.
pub open spec fn digit_char(d: nat) -> char {
    ((d + 48) as u8) as char
}

/// The decimal notation of a natural number, most significant digit first,
/// without leading zeros.
pub open spec fn decimal(n: nat) -> Seq<char>
    decreases n,
{
    if n < 10 {
        seq![digit_char(n)]
    } else {
        decimal(n / 10).push(digit_char(n % 10))
    }
}

/// Appends the decimal notation of `n` to `s`.
pub fn push_decimal(s: &mut String, n: u16)
    ensures
        final(s)@ == old(s)@ + decimal(n as nat),
    decreases n,
{
    if n >= 10 {
        push_decimal(s, n / 10);
    }
    let d: u8 = (n % 10) as u8;
    let c: char = (d + 48) as char;
    push_char(s, c);
}

/// `s` with every line break followed by a comment marker `# `.
pub open spec fn comment_continuation(s: Seq<char>) -> Seq<char>
    decreases s.len(),
{
    if s.len() == 0 {
        seq![]
    } else if s.last() == '\n' {
        comment_continuation(s.drop_last()) + seq!['\n', '#', ' ']
    } else {
        comment_continuation(s.drop_last()).push(s.last())
    }
}

/// Appends `text` to `out`, writing `\n# ` in place of every `\n`.
pub fn push_comment_continuation(out: &mut String, text: &str)
    ensures
        final(out)@ == old(out)@ + comment_continuation(text@),
{
    let ghost start = out@;
    let ghost all = text@;
    for c in iter: text.chars()
        invariant
            iter.seq() == all,
            out@ == start + comment_continuation(all.take(iter.index() as int)),
    {
        let ghost i = iter.index() as int;
        assert(all.take(i + 1).drop_last() =~= all.take(i));
        if c == '\n' {
            push_char(out, '\n');
            push_char(out, '#');
            push_char(out, ' ');
        } else {
            push_char(out, c);
        }
    }
    assert(all.take(all.len() as int) =~= all);
}

/// The number that a string of decimal digits denotes.
pub open spec fn decimal_value(s: Seq<char>) -> int
    decreases s.len(),
{
    if s.len() == 0 {
        0
    } else {
        decimal_value(s.drop_last()) * 10 + (s.last() as int - 48)
    }
}

/// Reading back the decimal notation of a number gives the number, and the
/// notation holds only the digits `0` to `9`: a status code is logged as
/// exactly its value.
pub proof fn decimal_round_trip(n: nat)
    ensures
        decimal_value(decimal(n)) == n,
        forall|i: int| 0 <= i < decimal(n).len() ==> '0' <= #[trigger] decimal(n)[i] <= '9',
    decreases n,
{
    assert(digit_char(n % 10) as int == n % 10 + 48);
    assert(n == (n / 10) * 10 + n % 10) by (nonlinear_arith);
    let d = decimal(n);
    if n < 10 {
        assert(n % 10 == n);
        assert(d.drop_last() =~= Seq::<char>::empty());
        assert(d.last() == digit_char(n));
        assert(decimal_value(Seq::<char>::empty()) == 0);
        assert(decimal_value(d) == decimal_value(d.drop_last()) * 10 + (d.last() as int - 48));
    } else {
        decimal_round_trip(n / 10);
        assert(d.drop_last() =~= decimal(n / 10));
        assert(d.last() == digit_char(n % 10));
        assert(decimal_value(d) == decimal_value(d.drop_last()) * 10 + (d.last() as int - 48));
        assert forall|i: int| 0 <= i < d.len() implies '0' <= #[trigger] d[i] <= '9' by {
            if i < d.len() - 1 {
                assert(d[i] == decimal(n / 10)[i]);
            }
        }
    }
}

/// Commenting out a text piece by piece is commenting out the whole: the
/// continuation of `a + b` is the continuation of `a` followed by that of `b`.
pub proof fn comment_continuation_splits(a: Seq<char>, b: Seq<char>)
    ensures
        comment_continuation(a + b) == comment_continuation(a) + comment_continuation(b),
    decreases b.len(),
{
    if b.len() == 0 {
        assert(a + b =~= a);
        assert(comment_continuation(a) + comment_continuation(b) =~= comment_continuation(a));
    } else {
        let init = b.drop_last();
        comment_continuation_splits(a, init);
        assert((a + b).drop_last() =~= a + init);
        assert((a + b).last() == b.last());
        if b.last() == '\n' {
            assert(comment_continuation(a) + comment_continuation(b) =~= comment_continuation(a)
                + comment_continuation(init) + seq!['\n', '#', ' ']);
        } else {
            assert(comment_continuation(a) + comment_continuation(b) =~= (comment_continuation(a)
                + comment_continuation(init)).push(b.last()));
        }
    }
}

/// Commenting out changes only line breaks: a line break becomes `\n# `,
/// and every other character stays itself.
pub proof fn comment_continuation_of_char(c: char)
    ensures
        c == '\n' ==> comment_continuation(seq![c]) == seq!['\n', '#', ' '],
        c != '\n' ==> comment_continuation(seq![c]) == seq![c],
{
    let s = seq![c];
    assert(s.drop_last() =~= Seq::<char>::empty());
    assert(comment_continuation(Seq::<char>::empty()) =~= Seq::<char>::empty());
    if c != '\n' {
        assert(Seq::<char>::empty().push(c) =~= seq![c]);
    } else {
        assert(Seq::<char>::empty() + seq!['\n', '#', ' '] =~= seq!['\n', '#', ' ']);
    }
}

/// A text without line breaks is shown unchanged.
pub proof fn comment_continuation_keeps_single_lines(s: Seq<char>)
    requires
        !s.contains('\n'),
    ensures
        comment_continuation(s) == s,
    decreases s.len(),
{
    if s.len() > 0 {
        let init = s.drop_last();
        assert(!init.contains('\n')) by {
            if init.contains('\n') {
                let j = choose|j: int| 0 <= j < init.len() && init[j] == '\n';
                assert(s[j] == '\n');
            }
        }
        comment_continuation_keeps_single_lines(init);
        assert(s.contains(s.last()));
        assert(init.push(s.last()) =~= s);
    }
}

} // verus!
