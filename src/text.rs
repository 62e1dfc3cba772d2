//! Text forms used by topics and payloads: decimal numbers, dot-joined
//! paths, hex digests and flat JSON objects.
use vstd::prelude::*;
use vstd::string::*;

verus! {

pub open spec fn digit_char(d: nat) -> char {
    if d == 0 {
        '0'
    } else if d == 1 {
        '1'
    } else if d == 2 {
        '2'
    } else if d == 3 {
        '3'
    } else if d == 4 {
        '4'
    } else if d == 5 {
        '5'
    } else if d == 6 {
        '6'
    } else if d == 7 {
        '7'
    } else if d == 8 {
        '8'
    } else {
        '9'
    }
}

/// Decimal digits of `n`, most significant first, without leading zeros.
pub open spec fn decimal(n: nat) -> Seq<char>
    decreases n,
{
    if n < 10 {
        seq![digit_char(n)]
    } else {
        decimal(n / 10).push(digit_char(n % 10))
    }
}

/// `s` preceded by as many `'0'` as it takes to reach `width` characters.
pub open spec fn pad_zeros(s: Seq<char>, width: nat) -> Seq<char> {
    if s.len() >= width {
        s
    } else {
        Seq::new((width - s.len()) as nat, |i: int| '0') + s
    }
}

/// Relies on std's integer formatting, `format!("{:0w$}", n)`: the decimal
/// digits of `n`, left-padded with zeros to `width` characters. A run-time
/// width above 65535 panics, which `requires` rules out.
#[verifier::external_body]
pub(crate) fn decimal_text(n: u128, width: usize) -> (r: String)
    requires
        width <= 65535,
    ensures
        r@ == pad_zeros(decimal(n as nat), width as nat),
{
    format!("{:0width$}", n, width = width)
}

/// The character views of a sequence of strings.
pub open spec fn views(v: Seq<String>) -> Seq<Seq<char>> {
    v.map_values(|s: String| s@)
}

/// Segments joined with `'.'` between neighbours.
pub open spec fn join_dot(segs: Seq<Seq<char>>) -> Seq<char>
    decreases segs.len(),
{
    if segs.len() == 0 {
        Seq::empty()
    } else if segs.len() == 1 {
        segs[0]
    } else {
        join_dot(segs.drop_last()) + seq!['.'] + segs.last()
    }
}

/// Number of `'.'` in `s`.
pub open spec fn dot_count(s: Seq<char>) -> nat
    decreases s.len(),
{
    if s.len() == 0 {
        0
    } else {
        dot_count(s.drop_last()) + if s.last() == '.' {
            1nat
        } else {
            0nat
        }
    }
}

pub open spec fn dot_free(s: Seq<char>) -> bool {
    forall|i: int| 0 <= i < s.len() ==> s[i] != '.'
}

pub proof fn lemma_dot_count_concat(a: Seq<char>, b: Seq<char>)
    ensures
        dot_count(a + b) == dot_count(a) + dot_count(b),
    decreases b.len(),
{
    if b.len() == 0 {
        assert(a + b =~= a);
    } else {
        lemma_dot_count_concat(a, b.drop_last());
        assert((a + b).drop_last() =~= a + b.drop_last());
    }
}

pub proof fn lemma_dot_free_count(s: Seq<char>)
    requires
        dot_free(s),
    ensures
        dot_count(s) == 0,
    decreases s.len(),
{
    if s.len() > 0 {
        lemma_dot_free_count(s.drop_last());
    }
}

/// Joining `n` dot-free segments yields exactly `n - 1` dots.
pub proof fn lemma_join_dot_count(segs: Seq<Seq<char>>)
    requires
        segs.len() > 0,
        forall|i: int| 0 <= i < segs.len() ==> dot_free(#[trigger] segs[i]),
    ensures
        dot_count(join_dot(segs)) == segs.len() - 1,
    decreases segs.len(),
{
    if segs.len() == 1 {
        lemma_dot_free_count(segs[0]);
    } else {
        let init = segs.drop_last();
        assert forall|i: int| 0 <= i < init.len() implies dot_free(#[trigger] init[i]) by {
            assert(init[i] == segs[i]);
        }
        lemma_join_dot_count(init);
        lemma_dot_count_concat(join_dot(init), seq!['.']);
        lemma_dot_count_concat(join_dot(init) + seq!['.'], segs.last());
        lemma_dot_free_count(segs.last());
        assert(seq!['.'].drop_last() =~= Seq::<char>::empty());
        assert(dot_count(Seq::<char>::empty()) == 0);
        assert(dot_count(seq!['.']) == 1);
    }
}

/// Joining the first `k` and the remaining segments, with a dot between
/// them, gives the join of all segments.
pub proof fn lemma_join_dot_split(segs: Seq<Seq<char>>, k: int)
    requires
        0 < k < segs.len(),
    ensures
        join_dot(segs.subrange(0, k)) + seq!['.'] + join_dot(segs.subrange(k, segs.len() as int))
            == join_dot(segs),
    decreases segs.len(),
{
    let n = segs.len() as int;
    if k == n - 1 {
        assert(segs.subrange(0, k) =~= segs.drop_last());
        assert(segs.subrange(k, n) =~= seq![segs.last()]);
    } else {
        let init = segs.drop_last();
        lemma_join_dot_split(init, k);
        assert(init.subrange(0, k) =~= segs.subrange(0, k));
        let tail = segs.subrange(k, n);
        assert(tail.drop_last() =~= init.subrange(k, n - 1));
        assert(tail.last() == segs.last());
    }
}

/// Joins `segs[from..to]` with `'.'`.
pub fn join_range(segs: &Vec<String>, from: usize, to: usize) -> (r: String)
    requires
        from <= to <= segs@.len(),
    ensures
        r@ == join_dot(views(segs@).subrange(from as int, to as int)),
{
    if from == to {
        return String::new();
    }
    let mut r = segs[from].clone();
    assert(views(segs@).subrange(from as int, from + 1) =~= seq![segs@[from as int]@]);
    let mut i: usize = from + 1;
    while i < to
        invariant
            from < i <= to <= segs@.len(),
            r@ == join_dot(views(segs@).subrange(from as int, i as int)),
        decreases to - i,
    {
        let ghost before = r@;
        proof {
            reveal_strlit(".");
        }
        r.append(".");
        r.append(segs[i].as_str());
        assert("."@ =~= seq!['.']);
        assert(r@ == before + seq!['.'] + segs@[i as int]@);
        assert(views(segs@).subrange(from as int, i + 1).drop_last() =~= views(segs@).subrange(
            from as int,
            i as int,
        ));
        assert(views(segs@).subrange(from as int, i + 1).last() == segs@[i as int]@);
        i = i + 1;
    }
    r
}

/// Joins strings with `'.'`.
pub fn join_with_dots(segs: &Vec<String>) -> (r: String)
    ensures
        r@ == join_dot(views(segs@)),
{
    let r = join_range(segs, 0, segs.len());
    assert(views(segs@).subrange(0, segs@.len() as int) =~= views(segs@));
    r
}

pub proof fn lemma_decimal_digits(n: nat)
    ensures
        decimal(n).len() >= 1,
        forall|i: int| 0 <= i < decimal(n).len() ==> '0' <= #[trigger] decimal(n)[i] <= '9',
    decreases n,
{
    if n >= 10 {
        lemma_decimal_digits(n / 10);
    }
}

pub proof fn lemma_pad_digits(n: nat, width: nat)
    ensures
        forall|i: int|
            0 <= i < pad_zeros(decimal(n), width).len() ==> '0' <= #[trigger] pad_zeros(
                decimal(n),
                width,
            )[i] <= '9',
{
    lemma_decimal_digits(n);
    let d = decimal(n);
    if d.len() < width {
        let p = pad_zeros(d, width);
        let z = Seq::new((width - d.len()) as nat, |i: int| '0');
        assert forall|i: int| 0 <= i < p.len() implies '0' <= #[trigger] p[i] <= '9' by {
            if i < z.len() {
                assert(p[i] == z[i]);
            } else {
                assert(p[i] == d[i - z.len()]);
            }
        }
    }
}

/// `a` comes strictly before `b` in lexicographic order of characters.
pub open spec fn str_lt(a: Seq<char>, b: Seq<char>) -> bool {
    exists|i: int|
        0 <= i <= a.len() && i <= b.len() && #[trigger] a.subrange(0, i) == b.subrange(0, i) && (
        (i < a.len() && i < b.len() && a[i] < b[i]) || (i == a.len() && i < b.len()))
}

/// A character that JSON strings carry without escaping.
pub open spec fn json_plain_char(c: char) -> bool {
    c != '"' && c != '\\' && c >= ' '
}

pub open spec fn json_plain(s: Seq<char>) -> bool {
    forall|i: int| 0 <= i < s.len() ==> json_plain_char(#[trigger] s[i])
}

pub open spec fn json_string(s: Seq<char>) -> Seq<char> {
    seq!['"'] + s + seq!['"']
}

pub open spec fn json_member(e: (Seq<char>, Seq<char>)) -> Seq<char> {
    json_string(e.0) + seq![':'] + json_string(e.1)
}

pub open spec fn json_members(es: Seq<(Seq<char>, Seq<char>)>) -> Seq<char>
    decreases es.len(),
{
    if es.len() == 0 {
        Seq::empty()
    } else if es.len() == 1 {
        json_member(es[0])
    } else {
        json_members(es.drop_last()) + seq![','] + json_member(es.last())
    }
}

/// The compact JSON text of an object with string keys and values, members
/// in the given order.
pub open spec fn json_object(es: Seq<(Seq<char>, Seq<char>)>) -> Seq<char> {
    seq!['{'] + json_members(es) + seq!['}']
}

pub open spec fn keys_ascending(es: Seq<(Seq<char>, Seq<char>)>) -> bool {
    forall|i: int, j: int| 0 <= i < j < es.len() ==> str_lt(#[trigger] es[i].0, #[trigger] es[j].0)
}

pub open spec fn entries_plain(es: Seq<(Seq<char>, Seq<char>)>) -> bool {
    forall|i: int| 0 <= i < es.len() ==> json_plain(#[trigger] es[i].0) && json_plain(es[i].1)
}

pub open spec fn entry_views(es: Seq<(String, String)>) -> Seq<(Seq<char>, Seq<char>)> {
    es.map_values(|e: (String, String)| (e.0@, e.1@))
}

} // verus!
