use vstd::prelude::*;

verus! {

/// The decimal digit for `d`, which is below ten.
pub open spec fn digit_char(d: nat) -> char {
    if d == 0 { '0' }
    else if d == 1 { '1' }
    else if d == 2 { '2' }
    else if d == 3 { '3' }
    else if d == 4 { '4' }
    else if d == 5 { '5' }
    else if d == 6 { '6' }
    else if d == 7 { '7' }
    else if d == 8 { '8' }
    else { '9' }
}

/// `n` written in decimal, without leading zeros.
pub open spec fn decimal(n: nat) -> Seq<char>
    decreases n,
{
    if n < 10 {
        seq![digit_char(n)]
    } else {
        decimal(n / 10).push(digit_char(n % 10))
    }
}

fn digit_str(d: usize) -> (r: &'static str)
    requires
        d < 10,
    ensures
        r@ == seq![digit_char(d as nat)],
{
    proof {
        reveal_strlit("0");
        reveal_strlit("1");
        reveal_strlit("2");
        reveal_strlit("3");
        reveal_strlit("4");
        reveal_strlit("5");
        reveal_strlit("6");
        reveal_strlit("7");
        reveal_strlit("8");
        reveal_strlit("9");
    }
    let r = if d == 0 { "0" }
    else if d == 1 { "1" }
    else if d == 2 { "2" }
    else if d == 3 { "3" }
    else if d == 4 { "4" }
    else if d == 5 { "5" }
    else if d == 6 { "6" }
    else if d == 7 { "7" }
    else if d == 8 { "8" }
    else { "9" };
    assert(r@ =~= seq![digit_char(d as nat)]);
    r
}

/// Writes `n` in decimal.
pub fn to_decimal(n: usize) -> (r: String)
    ensures
        r@ == decimal(n as nat),
    decreases n,
{
    if n < 10 {
        String::from_str(digit_str(n))
    } else {
        let mut r = to_decimal(n / 10);
        r.append(digit_str(n % 10));
        r
    }
}

/// What the character at `i` becomes when `s` is indented: a line break
/// that is followed by more text is followed by a tab.
pub open spec fn indent_piece(s: Seq<char>, i: int) -> Seq<char> {
    if s[i] == '\n' && i + 1 < s.len() {
        seq!['\n', '\t']
    } else {
        seq![s[i]]
    }
}

/// The first `n` characters of `s`, indented.
pub open spec fn indent_prefix(s: Seq<char>, n: nat) -> Seq<char>
    decreases n,
{
    if n == 0 {
        Seq::empty()
    } else {
        indent_prefix(s, (n - 1) as nat) + indent_piece(s, n - 1)
    }
}

/// `s` with a tab at the start of each of its lines.
pub open spec fn indented(s: Seq<char>) -> Seq<char> {
    seq!['\t'] + indent_prefix(s, s.len())
}

proof fn lemma_indent_plain_run(s: Seq<char>, start: nat, end: nat)
    requires
        start <= end <= s.len(),
        forall|k: int| start <= k < end ==> indent_piece(s, k) == seq![s[k]],
    ensures
        indent_prefix(s, end) == indent_prefix(s, start) + s.subrange(start as int, end as int),
    decreases end - start,
{
    if end > start {
        lemma_indent_plain_run(s, start, (end - 1) as nat);
        assert(s.subrange(start as int, end as int) =~= s.subrange(start as int, end - 1).push(
            s[end - 1],
        ));
        assert(indent_prefix(s, end) =~= indent_prefix(s, start) + s.subrange(
            start as int,
            end as int,
        ));
    } else {
        assert(s.subrange(start as int, end as int) =~= Seq::<char>::empty());
        assert(indent_prefix(s, end) =~= indent_prefix(s, start) + s.subrange(
            start as int,
            end as int,
        ));
    }
}

/// Indents `s` by one tab on every line, for text shown beneath a report line.
pub fn indent(s: &str) -> (r: String)
    ensures
        r@ == indented(s@),
{
    let n = s.unicode_len();
    let mut r = String::from_str("\t");
    proof {
        reveal_strlit("\t");
    }
    let mut start: usize = 0;
    let mut i: usize = 0;
    while i < n
        invariant
            n == s@.len(),
            start <= i <= n,
            r@ == seq!['\t'] + indent_prefix(s@, start as nat),
            forall|k: int| start <= k < i ==> indent_piece(s@, k) == seq![s@[k]],
        decreases n - i,
    {
        let c = s.get_char(i);
        if c == '\n' && i + 1 < n {
            proof {
                lemma_indent_plain_run(s@, start as nat, i as nat);
                reveal_strlit("\t");
            }
            r.append(s.substring_char(start, i + 1));
            r.append("\t");
            assert(s@.subrange(start as int, i + 1) =~= s@.subrange(start as int, i as int).push(
                '\n',
            ));
            assert(indent_prefix(s@, (i + 1) as nat) =~= indent_prefix(s@, i as nat) + seq![
                '\n',
                '\t',
            ]);
            assert(r@ =~= seq!['\t'] + indent_prefix(s@, (i + 1) as nat));
            start = i + 1;
        }
        i = i + 1;
    }
    proof {
        lemma_indent_plain_run(s@, start as nat, n as nat);
    }
    r.append(s.substring_char(start, n));
    assert(r@ =~= indented(s@));
    r
}

} // verus!
