//! Comma separated lists, as annotation values carry them.
use vstd::prelude::*;
use vstd::string::*;

verus! {

/// The code points with Unicode's `White_Space` property.
pub open spec fn white_space(c: char) -> bool {
    let n = c as u32;
    ||| 0x09 <= n <= 0x0d
    ||| n == 0x20
    ||| n == 0x85
    ||| n == 0xa0
    ||| n == 0x1680
    ||| 0x2000 <= n <= 0x200a
    ||| n == 0x2028
    ||| n == 0x2029
    ||| n == 0x202f
    ||| n == 0x205f
    ||| n == 0x3000
}

/// `s` without its leading white space.
pub open spec fn trimmed_start(s: Seq<char>) -> Seq<char>
    decreases s.len(),
{
    if s.len() > 0 && white_space(s[0]) {
        trimmed_start(s.skip(1))
    } else {
        s
    }
}

/// `s` without its trailing white space.
pub open spec fn trimmed_end(s: Seq<char>) -> Seq<char>
    decreases s.len(),
{
    if s.len() > 0 && white_space(s.last()) {
        trimmed_end(s.drop_last())
    } else {
        s
    }
}

/// `s` without leading and trailing white space.
pub open spec fn trimmed(s: Seq<char>) -> Seq<char> {
    trimmed_end(trimmed_start(s))
}

/// The parts of `s` between its commas: one more than there are commas.
pub open spec fn comma_parts(s: Seq<char>) -> Seq<Seq<char>>
    decreases s.len(),
{
    if s.len() == 0 {
        seq![s]
    } else {
        let parts = comma_parts(s.drop_last());
        if s.last() == ',' {
            parts.push(Seq::empty())
        } else {
            parts.drop_last().push(parts.last().push(s.last()))
        }
    }
}

/// The entries of a comma separated list: its parts, each without surrounding white space.
pub open spec fn list_entries(s: Seq<char>) -> Seq<Seq<char>> {
    comma_parts(s).map_values(|part: Seq<char>| trimmed(part))
}

/// Whether `c` is white space.
pub fn is_white_space(c: char) -> (result: bool)
    ensures
        result == white_space(c),
{
    let n: u32 = c as u32;
    (0x09 <= n && n <= 0x0d) || n == 0x20 || n == 0x85 || n == 0xa0 || n == 0x1680 || (0x2000 <= n
        && n <= 0x200a) || n == 0x2028 || n == 0x2029 || n == 0x202f || n == 0x205f || n == 0x3000
}

/// `s` without leading and trailing white space.
pub fn trim(s: &str) -> (result: &str)
    ensures
        result@ == trimmed(s@),
{
    let n: usize = s.unicode_len();
    let mut from: usize = 0;
    assert(s@.skip(0) =~= s@);
    while from < n && is_white_space(s.get_char(from))
        invariant
            from <= n,
            n == s@.len(),
            trimmed_start(s@.skip(from as int)) == trimmed_start(s@),
        decreases n - from,
    {
        assert(s@.skip(from as int).skip(1) =~= s@.skip(from + 1));
        from = from + 1;
    }
    assert(trimmed_start(s@) == s@.skip(from as int));
    let mut to: usize = n;
    assert(s@.subrange(from as int, n as int) =~= s@.skip(from as int));
    while from < to && is_white_space(s.get_char(to - 1))
        invariant
            from <= to <= n,
            n == s@.len(),
            trimmed_end(s@.subrange(from as int, to as int)) == trimmed(s@),
        decreases to - from,
    {
        assert(s@.subrange(from as int, to as int).drop_last() =~= s@.subrange(
            from as int,
            to - 1,
        ));
        to = to - 1;
    }
    s.substring_char(from, to)
}

/// The entries of the comma separated list `s`.
pub fn split_list(s: &str) -> (result: Vec<String>)
    ensures
        result.deep_view() == list_entries(s@),
{
    let n: usize = s.unicode_len();
    let mut entries: Vec<String> = Vec::new();
    let mut from: usize = 0;
    let mut i: usize = 0;
    let ghost mut parts: Seq<Seq<char>> = Seq::empty();
    assert(s@.take(0) =~= s@.subrange(0, 0));
    assert(comma_parts(s@.take(0)) =~= parts.push(s@.subrange(0, 0)));
    assert(entries.deep_view() =~= parts.map_values(|part: Seq<char>| trimmed(part)));
    while i < n
        invariant
            from <= i <= n,
            n == s@.len(),
            comma_parts(s@.take(i as int)) == parts.push(s@.subrange(from as int, i as int)),
            entries.deep_view() == parts.map_values(|part: Seq<char>| trimmed(part)),
        decreases n - i,
    {
        let ghost before = s@.subrange(from as int, i as int);
        assert(s@.take(i + 1).drop_last() =~= s@.take(i as int));
        assert(parts.push(before).drop_last() =~= parts);
        if s.get_char(i) == ',' {
            let entry = trim(s.substring_char(from, i)).to_owned();
            let ghost entries_before = entries.deep_view();
            entries.push(entry);
            assert(entries.deep_view() =~= entries_before.push(trimmed(before)));
            from = i + 1;
            proof {
                parts = parts.push(before);
            }
            assert(entries.deep_view() =~= parts.map_values(|part: Seq<char>| trimmed(part)));
            assert(s@.subrange(from as int, i + 1) =~= Seq::<char>::empty());
        } else {
            assert(s@.subrange(from as int, i + 1) =~= before.push(s@[i as int]));
        }
        i = i + 1;
    }
    let ghost tail = s@.subrange(from as int, n as int);
    let ghost entries_before = entries.deep_view();
    let entry = trim(s.substring_char(from, n)).to_owned();
    entries.push(entry);
    assert(entries.deep_view() =~= entries_before.push(trimmed(tail)));
    assert(s@.take(n as int) =~= s@);
    assert(entries.deep_view() =~= list_entries(s@));
    entries
}

/// How many commas `s` holds.
pub open spec fn commas(s: Seq<char>) -> nat {
    s.filter(|c: char| c == ',').len()
}

/// Whether the characters of `s` from `a` up to `b` stand between two commas, or between a comma
/// and an end of `s`, with no comma among them.
pub open spec fn between_commas(s: Seq<char>, a: int, b: int) -> bool {
    &&& 0 <= a <= b <= s.len()
    &&& a == 0 || s[a - 1] == ','
    &&& b == s.len() || s[b] == ','
    &&& forall|i: int| a <= i < b ==> #[trigger] s[i] != ','
}

/// One character more is one comma more, or none.
proof fn lemma_commas_next(s: Seq<char>)
    requires
        s.len() > 0,
    ensures
        commas(s) == commas(s.drop_last()) + if s.last() == ',' {
            1nat
        } else {
            0
        },
{
    reveal(Seq::filter);
}

/// A beginning of a text holds no more commas than the text.
proof fn lemma_commas_of_beginning(s: Seq<char>, n: int)
    requires
        0 <= n <= s.len(),
    ensures
        commas(s.take(n)) <= commas(s),
        n < s.len() && s[n] == ',' ==> commas(s.take(n)) < commas(s),
    decreases s.len(),
{
    if n == s.len() {
        assert(s.take(n) =~= s);
    } else {
        lemma_commas_next(s);
        let rest = s.drop_last();
        assert(rest.take(n) =~= s.take(n));
        lemma_commas_of_beginning(rest, n);
    }
}

/// There is one part more than there are commas.
proof fn lemma_number_of_parts(s: Seq<char>)
    ensures
        comma_parts(s).len() == commas(s) + 1,
    decreases s.len(),
{
    reveal(Seq::filter);
    if s.len() > 0 {
        lemma_number_of_parts(s.drop_last());
        lemma_commas_next(s);
    }
}

/// What stands between two commas is the part after as many parts as there are commas before it.
proof fn lemma_part(s: Seq<char>, a: int, b: int)
    requires
        between_commas(s, a, b),
    ensures
        commas(s.take(a)) < comma_parts(s).len(),
        comma_parts(s)[commas(s.take(a)) as int] == s.subrange(a, b),
    decreases s.len(),
{
    lemma_number_of_parts(s);
    lemma_commas_of_beginning(s, a);
    if s.len() == 0 {
        assert(s.subrange(a, b) =~= s);
        assert(s.take(a) =~= s);
    } else {
        let rest = s.drop_last();
        let end = s.len() - 1;
        lemma_number_of_parts(rest);
        lemma_commas_next(s);
        if a == s.len() {
            assert(s.take(a) =~= s);
            assert(s[a - 1] == ',');
            assert(s.subrange(a, b) =~= Seq::empty());
        } else {
            assert(rest.take(a) =~= s.take(a));
            lemma_commas_of_beginning(rest, a);
            if b == s.len() {
                assert(s[end] != ',');
                assert(between_commas(rest, a, end)) by {
                    assert forall|i: int| a <= i < end implies #[trigger] rest[i] != ',' by {
                        assert(s[i] != ',');
                    }
                }
                lemma_part(rest, a, end);
                assert(s.subrange(a, b) =~= rest.subrange(a, end).push(s.last()));
                lemma_none_after(s, a);
                lemma_none_after(rest, a);
            } else {
                assert(between_commas(rest, a, b)) by {
                    assert forall|i: int| a <= i < b implies #[trigger] rest[i] != ',' by {
                        assert(s[i] != ',');
                    }
                }
                lemma_part(rest, a, b);
                assert(rest.subrange(a, b) =~= s.subrange(a, b));
                if s.last() != ',' {
                    assert(rest[b] == ',');
                    assert(rest.take(b).take(a) =~= rest.take(a));
                    lemma_commas_of_beginning(rest.take(b), a);
                    lemma_commas_of_beginning(rest, b);
                }
            }
        }
    }
}

/// Where no comma follows, all of them came before.
proof fn lemma_none_after(s: Seq<char>, a: int)
    requires
        0 <= a <= s.len(),
        forall|i: int| a <= i < s.len() ==> #[trigger] s[i] != ',',
    ensures
        commas(s.take(a)) == commas(s),
    decreases s.len(),
{
    if a == s.len() {
        assert(s.take(a) =~= s);
    } else {
        lemma_commas_next(s);
        let rest = s.drop_last();
        assert(rest.take(a) =~= s.take(a));
        assert(s[s.len() - 1] != ',');
        assert forall|i: int| a <= i < rest.len() implies #[trigger] rest[i] != ',' by {
            assert(s[i] != ',');
        }
        lemma_none_after(rest, a);
    }
}

/// Nothing but white space is missing at the start of `trimmed_start(s)`.
proof fn lemma_trimmed_start(s: Seq<char>) -> (a: int)
    ensures
        0 <= a <= s.len(),
        trimmed_start(s) == s.skip(a),
        forall|i: int| 0 <= i < a ==> white_space(#[trigger] s[i]),
        a < s.len() ==> !white_space(s[a]),
    decreases s.len(),
{
    if s.len() > 0 && white_space(s[0]) {
        let a = lemma_trimmed_start(s.skip(1));
        assert(s.skip(1).skip(a) =~= s.skip(a + 1));
        assert forall|i: int| 0 <= i < a + 1 implies white_space(#[trigger] s[i]) by {
            if i > 0 {
                assert(white_space(s.skip(1)[i - 1]));
            }
        }
        a + 1
    } else {
        assert(s.skip(0) =~= s);
        0
    }
}

/// Nothing but white space is missing at the end of `trimmed_end(s)`.
proof fn lemma_trimmed_end(s: Seq<char>) -> (b: int)
    ensures
        0 <= b <= s.len(),
        trimmed_end(s) == s.take(b),
        forall|i: int| b <= i < s.len() ==> white_space(#[trigger] s[i]),
        b > 0 ==> !white_space(s[b - 1]),
    decreases s.len(),
{
    if s.len() > 0 && white_space(s.last()) {
        let rest = s.drop_last();
        let b = lemma_trimmed_end(rest);
        assert(rest.take(b) =~= s.take(b));
        assert forall|i: int| b <= i < s.len() implies white_space(#[trigger] s[i]) by {
            if i < rest.len() {
                assert(white_space(rest[i]));
            }
        }
        b
    } else {
        assert(s.take(s.len() as int) =~= s);
        s.len() as int
    }
}

/// Whether `t` is `s` without the white space at its ends: a stretch of `s` that white space alone
/// surrounds, and that neither begins nor ends with white space.
pub open spec fn is_stripped(t: Seq<char>, s: Seq<char>) -> bool {
    exists|a: int, b: int|
        {
            &&& 0 <= a <= b <= s.len()
            &&& t == #[trigger] s.subrange(a, b)
            &&& forall|i: int| 0 <= i < a || b <= i < s.len() ==> white_space(#[trigger] s[i])
            &&& a < b ==> !white_space(s[a]) && !white_space(s[b - 1])
        }
}

/// Trimming takes away the white space at both ends, all of it and nothing else.
pub proof fn law_trimmed(s: Seq<char>)
    ensures
        is_stripped(trimmed(s), s),
{
    let a = lemma_trimmed_start(s);
    let mid = s.skip(a);
    let n = lemma_trimmed_end(mid);
    let b = a + n;
    assert(mid.take(n) =~= s.subrange(a, b));
    assert forall|i: int| 0 <= i < a || b <= i < s.len() implies white_space(#[trigger] s[i]) by {
        if i >= b {
            assert(white_space(mid[i - a]));
        }
    }
    if a < b {
        assert(mid[n - 1] == s[b - 1]);
    }
}

/// There is one entry more than there are commas, and every part counts: what stands between two
/// commas, without the white space around it, is the entry after as many entries as there are
/// commas before it.
pub proof fn law_list_entries(s: Seq<char>, a: int, b: int)
    requires
        between_commas(s, a, b),
    ensures
        list_entries(s).len() == commas(s) + 1,
        commas(s.take(a)) < list_entries(s).len(),
        is_stripped(list_entries(s)[commas(s.take(a)) as int], s.subrange(a, b)),
        list_entries(s).contains(list_entries(s)[commas(s.take(a)) as int]),
{
    lemma_number_of_parts(s);
    lemma_part(s, a, b);
    law_trimmed(s.subrange(a, b));
}

/// Every entry is a part: it stands between two commas.
pub proof fn law_entries_are_parts(s: Seq<char>, k: int) -> (bounds: (int, int))
    requires
        0 <= k < list_entries(s).len(),
    ensures
        between_commas(s, bounds.0, bounds.1),
        commas(s.take(bounds.0)) == k,
        is_stripped(list_entries(s)[k], s.subrange(bounds.0, bounds.1)),
{
    lemma_number_of_parts(s);
    let bounds = lemma_bounds(s, k);
    law_list_entries(s, bounds.0, bounds.1);
    bounds
}

/// Where the part `k` stands.
proof fn lemma_bounds(s: Seq<char>, k: int) -> (bounds: (int, int))
    requires
        0 <= k <= commas(s),
    ensures
        between_commas(s, bounds.0, bounds.1),
        commas(s.take(bounds.0)) == k,
    decreases s.len(),
{
    reveal(Seq::filter);
    if s.len() == 0 {
        assert(s.take(0) =~= s);
        (0, 0)
    } else {
        let rest = s.drop_last();
        let end = s.len() - 1;
        lemma_commas_next(s);
        if s.last() == ',' && k == commas(s) {
            assert(s.take(s.len() as int) =~= s);
            (s.len() as int, s.len() as int)
        } else {
            let (a, b) = lemma_bounds(rest, k);
            assert(rest.take(a) =~= s.take(a));
            let to = if b == end && s.last() != ',' {
                s.len() as int
            } else {
                b
            };
            assert forall|i: int| a <= i < to implies #[trigger] s[i] != ',' by {
                if i < b {
                    assert(rest[i] != ',');
                }
            }
            (a, to)
        }
    }
}

} // verus!
