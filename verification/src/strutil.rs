//! Verified helpers over `&str` / `String`, used by the parsers and the
//! display formatting.  Views of strings are `Seq<char>`.
use vstd::prelude::*;

verus! {

/// `sub` occurs contiguously somewhere in `s`.
pub open spec fn has_substr(s: Seq<char>, sub: Seq<char>) -> bool {
    exists|i: int| 0 <= i && i + sub.len() <= s.len() && #[trigger] s.subrange(i, i + sub.len()) == sub
}

/// The needle matches the haystack character for character at offset `off`.
fn match_at(s: &str, p: &str, off: usize) -> (r: bool)
    requires
        off + p@.len() <= s@.len(),
    ensures
        r == (s@.subrange(off as int, off + p@.len()) == p@),
{
    let slen = s.unicode_len();
    let plen = p.unicode_len();
    let mut i: usize = 0;
    while i < plen
        invariant
            slen == s@.len(),
            plen == p@.len(),
            off + plen <= slen,
            i <= plen,
            forall|j: int| 0 <= j < i ==> s@[off + j] == p@[j],
        decreases plen - i,
    {
        if s.get_char(off + i) != p.get_char(i) {
            assert(s@.subrange(off as int, off + p@.len())[i as int] != p@[i as int]);
            return false;
        }
        i += 1;
    }
    proof {
        assert(s@.subrange(off as int, off + p@.len()) =~= p@);
    }
    true
}

/// Scan every offset for a character-by-character match of the needle.
pub fn contains_substr(s: &str, sub: &str) -> (r: bool)
    ensures
        r == has_substr(s@, sub@),
{
    let slen = s.unicode_len();
    let sublen = sub.unicode_len();
    if sublen > slen {
        proof {
            if has_substr(s@, sub@) {
                let i = choose|i: int|
                    0 <= i && i + sub@.len() <= s@.len() && #[trigger] s@.subrange(
                        i,
                        i + sub@.len(),
                    ) == sub@;
                assert(false);
            }
        }
        return false;
    }
    if sublen == 0 {
        proof {
            assert(s@.subrange(0, 0 + sub@.len() as int) =~= sub@);
        }
        return true;
    }
    let mut off: usize = 0;
    while off <= slen - sublen
        invariant
            slen == s@.len(),
            sublen == sub@.len(),
            0 < sublen <= slen,
            off <= slen - sublen + 1,
            forall|j: int| 0 <= j < off ==> #[trigger] s@.subrange(j, j + sub@.len()) != sub@,
        decreases slen - sublen - off + 1,
    {
        if match_at(s, sub, off) {
            assert(has_substr(s@, sub@)) by {
                assert(s@.subrange(off as int, off + sub@.len()) == sub@);
            }
            return true;
        }
        off += 1;
    }
    proof {
        if has_substr(s@, sub@) {
            let i = choose|i: int|
                0 <= i && i + sub@.len() <= s@.len() && #[trigger] s@.subrange(i, i + sub@.len())
                    == sub@;
            assert(i < off);
            assert(false);
        }
    }
    false
}

/// Character-by-character string equality.
pub fn str_eq(a: &str, b: &str) -> (r: bool)
    ensures
        r == (a@ == b@),
{
    let alen = a.unicode_len();
    let blen = b.unicode_len();
    if alen != blen {
        assert(a@ != b@) by {
            assert(a@.len() != b@.len());
        }
        return false;
    }
    let mut i: usize = 0;
    while i < alen
        invariant
            alen == a@.len(),
            blen == b@.len(),
            alen == blen,
            i <= alen,
            forall|j: int| 0 <= j < i ==> a@[j] == b@[j],
        decreases alen - i,
    {
        if a.get_char(i) != b.get_char(i) {
            return false;
        }
        i += 1;
    }
    proof {
        assert(a@ =~= b@);
    }
    true
}

/// `p` is a prefix of `s`.
pub open spec fn is_prefix(s: Seq<char>, p: Seq<char>) -> bool {
    p.len() <= s.len() && s.subrange(0, p.len() as int) == p
}

/// Character-by-character prefix test.
pub fn starts_with(s: &str, p: &str) -> (r: bool)
    ensures
        r == is_prefix(s@, p@),
{
    let slen = s.unicode_len();
    let plen = p.unicode_len();
    if plen > slen {
        return false;
    }
    let mut i: usize = 0;
    while i < plen
        invariant
            slen == s@.len(),
            plen == p@.len(),
            plen <= slen,
            i <= plen,
            forall|j: int| 0 <= j < i ==> s@[j] == p@[j],
        decreases plen - i,
    {
        if s.get_char(i) != p.get_char(i) {
            assert(s@.subrange(0, p@.len() as int)[i as int] != p@[i as int]);
            return false;
        }
        i += 1;
    }
    proof {
        assert(s@.subrange(0, p@.len() as int) =~= p@);
    }
    true
}

/// Index of the first occurrence of `c` in `s` at or after `from`.
pub open spec fn index_of_char(s: Seq<char>, c: char, from: int) -> Option<int>
    decreases s.len() - from,
{
    if from < 0 || from >= s.len() {
        None
    } else if s[from] == c {
        Some(from)
    } else {
        index_of_char(s, c, from + 1)
    }
}

/// Scan for the first occurrence of `c` at or after `from`.
pub fn find_char_from(s: &str, c: char, from: usize) -> (r: Option<usize>)
    ensures
        index_of_char(s@, c, from as int) == (match r {
            Some(i) => Some(i as int),
            None => None::<int>,
        }),
        r matches Some(i) ==> from <= i < s@.len() && s@[i as int] == c,
{
    let slen = s.unicode_len();
    let mut i = from;
    if i > slen {
        return None;
    }
    while i < slen
        invariant
            slen == s@.len(),
            from <= i <= slen,
            index_of_char(s@, c, from as int) == index_of_char(s@, c, i as int),
        decreases slen - i,
    {
        if s.get_char(i) == c {
            proof {
                lemma_index_of_char_in_range(s@, c, from as int);
            }
            return Some(i);
        }
        i += 1;
    }
    None
}

proof fn lemma_index_of_char_in_range(s: Seq<char>, c: char, from: int)
    ensures
        index_of_char(s, c, from) matches Some(i) ==> from <= i < s.len() && s[i] == c,
    decreases s.len() - from,
{
    if 0 <= from < s.len() && s[from] != c {
        lemma_index_of_char_in_range(s, c, from + 1);
    }
}

/// A whitespace character, in the ASCII sense.
pub open spec fn is_ws(c: char) -> bool {
    c == ' ' || c == '\t' || c == '\r' || c == '\n'
}

/// `s` with leading whitespace removed.
pub open spec fn trim_start_v(s: Seq<char>) -> Seq<char>
    decreases s.len(),
{
    if s.len() > 0 && is_ws(s[0]) {
        trim_start_v(s.drop_first())
    } else {
        s
    }
}

/// `s` with trailing whitespace removed.
pub open spec fn trim_end_v(s: Seq<char>) -> Seq<char>
    decreases s.len(),
{
    if s.len() > 0 && is_ws(s.last()) {
        trim_end_v(s.drop_last())
    } else {
        s
    }
}

/// `s` with whitespace removed from both ends.
pub open spec fn trim_v(s: Seq<char>) -> Seq<char> {
    trim_end_v(trim_start_v(s))
}

/// Remove ASCII whitespace from both ends of `s`.
pub fn trim_ws(s: &str) -> (r: &str)
    ensures
        r@ == trim_v(s@),
{
    let slen = s.unicode_len();
    let mut start: usize = 0;
    proof {
        assert(s@.skip(0) =~= s@);
    }
    loop
        invariant_except_break
            slen == s@.len(),
            start <= slen,
            trim_start_v(s@) == trim_start_v(s@.skip(start as int)),
        ensures
            slen == s@.len(),
            start <= slen,
            trim_start_v(s@) == s@.skip(start as int),
        decreases slen - start,
    {
        if start >= slen {
            proof {
                assert(s@.skip(start as int) =~= Seq::<char>::empty());
            }
            break;
        }
        let c = s.get_char(start);
        if !(c == ' ' || c == '\t' || c == '\r' || c == '\n') {
            break;
        }
        proof {
            assert(s@.skip(start as int).drop_first() =~= s@.skip(start as int + 1));
        }
        start += 1;
    }
    proof {
        assert(s@.subrange(start as int, slen as int) =~= s@.skip(start as int));
    }
    let mut end: usize = slen;
    loop
        invariant_except_break
            slen == s@.len(),
            start <= end <= slen,
            trim_start_v(s@) == s@.subrange(start as int, slen as int),
            trim_end_v(s@.subrange(start as int, slen as int)) == trim_end_v(
                s@.subrange(start as int, end as int),
            ),
        ensures
            start <= end <= slen,
            slen == s@.len(),
            trim_end_v(trim_start_v(s@)) == s@.subrange(start as int, end as int),
        decreases end,
    {
        if end <= start {
            break;
        }
        let c = s.get_char(end - 1);
        if !(c == ' ' || c == '\t' || c == '\r' || c == '\n') {
            break;
        }
        proof {
            assert(s@.subrange(start as int, end as int).drop_last() =~= s@.subrange(
                start as int,
                end as int - 1,
            ));
        }
        end -= 1;
    }
    s.substring_char(start, end)
}

/// A decimal digit.
pub open spec fn is_digit(c: char) -> bool {
    '0' <= c && c <= '9'
}

/// Numeric value of a decimal digit character.
pub open spec fn digit_val(c: char) -> int {
    c as int - '0' as int
}

/// Every character of `s` is a decimal digit.
pub open spec fn all_digits(s: Seq<char>) -> bool {
    forall|i: int| 0 <= i < s.len() ==> is_digit(#[trigger] s[i])
}

/// The number denoted by a sequence of decimal digits.
pub open spec fn dec_value(s: Seq<char>) -> int
    decreases s.len(),
{
    if s.len() == 0 {
        0
    } else {
        dec_value(s.drop_last()) * 10 + digit_val(s.last())
    }
}

pub proof fn lemma_dec_value_nonneg(s: Seq<char>)
    requires
        all_digits(s),
    ensures
        dec_value(s) >= 0,
    decreases s.len(),
{
    if s.len() > 0 {
        assert(all_digits(s.drop_last()));
        lemma_dec_value_nonneg(s.drop_last());
    }
}

/// Reading one more digit multiplies the prefix value by ten and adds it.
pub proof fn lemma_dec_value_step(s: Seq<char>, i: int)
    requires
        0 <= i < s.len(),
    ensures
        dec_value(s.take(i + 1)) == dec_value(s.take(i)) * 10 + digit_val(s[i]),
{
    assert(s.take(i + 1).drop_last() =~= s.take(i));
    assert(s.take(i + 1).last() == s[i]);
}

/// The value of a digit string dominates the value of each of its prefixes.
pub proof fn lemma_dec_value_prefix_le(s: Seq<char>, i: int)
    requires
        all_digits(s),
        0 <= i <= s.len(),
    ensures
        dec_value(s.take(i)) <= dec_value(s),
    decreases s.len() - i,
{
    if i < s.len() {
        lemma_dec_value_step(s, i);
        assert(all_digits(s.take(i)));
        lemma_dec_value_nonneg(s.take(i));
        lemma_dec_value_prefix_le(s, i + 1);
    } else {
        assert(s.take(i) =~= s);
    }
}

/// Parse an unsigned decimal number, rejecting anything over `u64::MAX`.
pub fn parse_u64(s: &str) -> (r: Option<u64>)
    ensures
        match r {
            Some(v) => s@.len() > 0 && all_digits(s@) && dec_value(s@) == v as int,
            None => s@.len() == 0 || !all_digits(s@) || dec_value(s@) > u64::MAX as int,
        },
{
    let slen = s.unicode_len();
    if slen == 0 {
        return None;
    }
    let mut acc: u64 = 0;
    let mut i: usize = 0;
    while i < slen
        invariant
            slen == s@.len(),
            0 < slen,
            i <= slen,
            all_digits(s@.take(i as int)),
            acc as int == dec_value(s@.take(i as int)),
        decreases slen - i,
    {
        let c = s.get_char(i);
        if !(c >= '0' && c <= '9') {
            assert(!is_digit(s@[i as int]));
            return None;
        }
        let d: u64 = (c as u32 as u64) - ('0' as u32 as u64);
        assert(d as int == digit_val(s@[i as int]));
        let wide: u128 = (acc as u128) * 10 + (d as u128);
        proof {
            lemma_dec_value_step(s@, i as int);
        }
        if wide > u64::MAX as u128 {
            proof {
                assert(all_digits(s@.take(i as int + 1)));
                if all_digits(s@) {
                    lemma_dec_value_prefix_le(s@, i as int + 1);
                }
            }
            return None;
        }
        acc = wide as u64;
        i += 1;
    }
    proof {
        assert(s@.take(slen as int) =~= s@);
    }
    Some(acc)
}

/// Parse an unsigned decimal number that must fit in `u32`.
pub fn parse_u32(s: &str) -> (r: Option<u32>)
    ensures
        match r {
            Some(v) => s@.len() > 0 && all_digits(s@) && dec_value(s@) == v as int,
            None => s@.len() == 0 || !all_digits(s@) || dec_value(s@) > u32::MAX as int,
        },
{
    match parse_u64(s) {
        Some(v) => if v <= u32::MAX as u64 {
            Some(v as u32)
        } else {
            None
        },
        None => None,
    }
}

/// The integer denoted by `s`: an optional sign followed by decimal digits.
pub open spec fn int_value(s: Seq<char>) -> int {
    if s.len() > 0 && (s[0] == '-' || s[0] == '+') {
        if s[0] == '-' {
            -dec_value(s.drop_first())
        } else {
            dec_value(s.drop_first())
        }
    } else {
        dec_value(s)
    }
}

/// `s` is a well-formed optionally-signed decimal numeral.
pub open spec fn is_int_numeral(s: Seq<char>) -> bool {
    if s.len() > 0 && (s[0] == '-' || s[0] == '+') {
        s.len() > 1 && all_digits(s.drop_first())
    } else {
        s.len() > 0 && all_digits(s)
    }
}

/// Parse an optionally-signed decimal number that must fit in `i64`.
pub fn parse_i64(s: &str) -> (r: Option<i64>)
    ensures
        match r {
            Some(v) => is_int_numeral(s@) && int_value(s@) == v as int,
            None => !is_int_numeral(s@) || int_value(s@) > i64::MAX as int || int_value(s@)
                < i64::MIN as int,
        },
{
    let slen = s.unicode_len();
    if slen == 0 {
        return None;
    }
    let c0 = s.get_char(0);
    if c0 == '-' || c0 == '+' {
        let rest = s.substring_char(1, slen);
        proof {
            assert(rest@ =~= s@.drop_first());
        }
        match parse_u64(rest) {
            Some(v) => {
                if c0 == '-' {
                    if v <= 9223372036854775808u64 {
                        // -v fits; negate through i64::MIN carefully
                        if v == 9223372036854775808u64 {
                            Some(i64::MIN)
                        } else {
                            Some(-(v as i64))
                        }
                    } else {
                        None
                    }
                } else {
                    if v <= i64::MAX as u64 {
                        Some(v as i64)
                    } else {
                        None
                    }
                }
            },
            None => {
                proof {
                    if is_int_numeral(s@) {
                        lemma_dec_value_nonneg(s@.drop_first());
                    }
                }
                None
            },
        }
    } else {
        match parse_u64(s) {
            Some(v) => if v <= i64::MAX as u64 {
                Some(v as i64)
            } else {
                None
            },
            None => {
                proof {
                    if is_int_numeral(s@) {
                        lemma_dec_value_nonneg(s@);
                    }
                }
                None
            },
        }
    }
}

/// Views of a sequence of owned strings.
pub open spec fn strs_view(v: Seq<String>) -> Seq<Seq<char>> {
    v.map_values(|x: String| x@)
}

/// Views of a sequence of owned string pairs.
pub open spec fn pairs_view(v: Seq<(String, String)>) -> Seq<(Seq<char>, Seq<char>)> {
    v.map_values(|kv: (String, String)| (kv.0@, kv.1@))
}

/// View of an optional owned string.
pub open spec fn opt_str_view(o: Option<String>) -> Option<Seq<char>> {
    match o {
        Some(s) => Some(s@),
        None => None,
    }
}

/// `v` holds the character sequence `s`.
pub open spec fn contains_str_seq(v: Seq<Seq<char>>, s: Seq<char>) -> bool {
    exists|i: int| 0 <= i < v.len() && #[trigger] v[i] == s
}

/// Linear scan for a string with the given characters.
pub fn vec_contains_str(v: &Vec<String>, s: &str) -> (r: bool)
    ensures
        r == contains_str_seq(strs_view(v@), s@),
{
    let mut i: usize = 0;
    while i < v.len()
        invariant
            i <= v@.len(),
            forall|k: int| 0 <= k < i ==> #[trigger] v@[k]@ != s@,
        decreases v@.len() - i,
    {
        if str_eq(v[i].as_str(), s) {
            assert(strs_view(v@)[i as int] == s@);
            return true;
        }
        i += 1;
    }
    proof {
        if contains_str_seq(strs_view(v@), s@) {
            let k = choose|k: int|
                0 <= k < strs_view(v@).len() && #[trigger] strs_view(v@)[k] == s@;
            assert(v@[k]@ == s@);
        }
    }
    false
}

/// `p` is a suffix of `s`.
pub open spec fn is_suffix(s: Seq<char>, p: Seq<char>) -> bool {
    p.len() <= s.len() && s.subrange(s.len() - p.len(), s.len() as int) == p
}

/// Character-by-character suffix test.
pub fn ends_with(s: &str, p: &str) -> (r: bool)
    ensures
        r == is_suffix(s@, p@),
{
    let slen = s.unicode_len();
    let plen = p.unicode_len();
    if plen > slen {
        return false;
    }
    let off = slen - plen;
    let mut i: usize = 0;
    while i < plen
        invariant
            slen == s@.len(),
            plen == p@.len(),
            off == slen - plen,
            i <= plen,
            forall|j: int| 0 <= j < i ==> s@[off + j] == p@[j],
        decreases plen - i,
    {
        if s.get_char(off + i) != p.get_char(i) {
            assert(s@.subrange(s@.len() - p@.len(), s@.len() as int)[i as int] != p@[i as int]);
            return false;
        }
        i += 1;
    }
    proof {
        assert(s@.subrange(s@.len() - p@.len(), s@.len() as int) =~= p@);
    }
    true
}

/// The parts of `s` between occurrences of the separator `c`; always at least
/// one part, and empty parts are kept.
pub open spec fn split_seq(s: Seq<char>, c: char) -> Seq<Seq<char>>
    decreases s.len(),
{
    if s.len() == 0 {
        seq![Seq::<char>::empty()]
    } else if s[0] == c {
        seq![Seq::<char>::empty()] + split_seq(s.drop_first(), c)
    } else {
        let rest = split_seq(s.drop_first(), c);
        seq![seq![s[0]] + rest[0]] + rest.skip(1)
    }
}

/// Splitting a string that opens with a separator-free prefix: the prefix is
/// the first part, and splitting continues after the separator.
pub proof fn lemma_split_part(p: Seq<char>, r: Seq<char>, c: char)
    requires
        forall|k: int| 0 <= k < p.len() ==> p[k] != c,
    ensures
        split_seq(p + seq![c] + r, c) == seq![p] + split_seq(r, c),
        split_seq(p, c) == seq![p],
    decreases p.len(),
{
    if p.len() == 0 {
        assert(p + seq![c] + r =~= seq![c] + r);
        assert((seq![c] + r).drop_first() =~= r);
        assert(p =~= Seq::<char>::empty());
        assert(split_seq(p + seq![c] + r, c) =~~= seq![p] + split_seq(r, c));
        assert(split_seq(p, c) =~~= seq![p]);
    } else {
        let s = p + seq![c] + r;
        assert(s[0] == p[0]);
        assert(s.drop_first() =~= p.drop_first() + seq![c] + r);
        lemma_split_part(p.drop_first(), r, c);
        let rest = split_seq(s.drop_first(), c);
        assert(rest == seq![p.drop_first()] + split_seq(r, c));
        assert(rest[0] == p.drop_first());
        assert(seq![s[0]] + rest[0] =~= p);
        assert(rest.skip(1) =~= split_seq(r, c));
        assert(split_seq(s, c) =~~= seq![p] + split_seq(r, c));
        // and the lone-prefix case
        let rp = split_seq(p.drop_first(), c);
        assert(rp == seq![p.drop_first()]);
        assert(seq![p[0]] + rp[0] =~= p);
        assert(rp.skip(1) =~= Seq::<Seq<char>>::empty());
        assert(split_seq(p, c) =~~= seq![p]);
    }
}

/// Split `s` at every occurrence of `c`, keeping empty parts.
pub fn split_on_char(s: &str, c: char) -> (r: Vec<String>)
    ensures
        strs_view(r@) == split_seq(s@, c),
{
    let slen = s.unicode_len();
    let mut parts: Vec<String> = Vec::new();
    let mut start: usize = 0;
    let mut i: usize = 0;
    proof {
        assert(s@.skip(0) =~= s@);
        assert(strs_view(parts@) =~~= Seq::<Seq<char>>::empty());
    }
    while i < slen
        invariant
            slen == s@.len(),
            start <= i <= slen,
            forall|k: int| start <= k < i ==> s@[k] != c,
            split_seq(s@, c) == strs_view(parts@) + split_seq(s@.skip(start as int), c),
        decreases slen - i,
    {
        if s.get_char(i) == c {
            let part = s.substring_char(start, i).to_owned();
            proof {
                assert(s@.skip(start as int) =~= s@.subrange(start as int, i as int) + seq![c]
                    + s@.skip(i as int + 1));
                lemma_split_part(
                    s@.subrange(start as int, i as int),
                    s@.skip(i as int + 1),
                    c,
                );
                assert(strs_view(parts@.push(part)) =~~= strs_view(parts@) + seq![part@]);
                assert(strs_view(parts@) + split_seq(s@.skip(start as int), c) =~~= (strs_view(
                    parts@,
                ) + seq![part@]) + split_seq(s@.skip(i as int + 1), c));
            }
            parts.push(part);
            start = i + 1;
        }
        i += 1;
    }
    let last = s.substring_char(start, slen).to_owned();
    proof {
        assert(s@.subrange(start as int, slen as int) =~= s@.skip(start as int));
        lemma_split_part(s@.skip(start as int), Seq::<char>::empty(), c);
        assert(strs_view(parts@.push(last)) =~~= strs_view(parts@) + seq![last@]);
        assert(strs_view(parts@) + seq![last@] =~~= strs_view(parts@) + split_seq(
            s@.skip(start as int),
            c,
        ));
    }
    parts.push(last);
    parts
}

/// A part with a trailing carriage return removed.
pub open spec fn strip_cr(p: Seq<char>) -> Seq<char> {
    if p.len() > 0 && p.last() == '\r' {
        p.drop_last()
    } else {
        p
    }
}

/// The lines of `s`: parts between newlines, each without a trailing carriage
/// return, and without the empty part a final newline would otherwise add.
pub open spec fn lines_v(s: Seq<char>) -> Seq<Seq<char>> {
    if s.len() == 0 {
        Seq::empty()
    } else {
        let parts = if s.last() == '\n' {
            split_seq(s, '\n').drop_last()
        } else {
            split_seq(s, '\n')
        };
        parts.map_values(|p: Seq<char>| strip_cr(p))
    }
}

/// Split `s` into lines, as `lines_v` describes.
pub fn split_lines(s: &str) -> (r: Vec<String>)
    ensures
        strs_view(r@) == lines_v(s@),
{
    let slen = s.unicode_len();
    let mut out: Vec<String> = Vec::new();
    if slen == 0 {
        proof {
            assert(strs_view(out@) =~~= lines_v(s@));
        }
        return out;
    }
    let mut parts = split_on_char(s, '\n');
    if s.get_char(slen - 1) == '\n' {
        // `split_on_char` always returns at least one part
        proof {
            assert(split_seq(s@, '\n').len() > 0) by {
                lemma_split_len(s@, '\n');
            }
            assert(parts@.len() > 0) by {
                assert(strs_view(parts@).len() == split_seq(s@, '\n').len());
            }
        }
        let _ = parts.pop();
        proof {
            assert(strs_view(parts@) =~~= split_seq(s@, '\n').drop_last());
        }
    }
    let ghost target = lines_v(s@);
    let mut i: usize = 0;
    while i < parts.len()
        invariant
            i <= parts@.len(),
            target == strs_view(parts@).map_values(|p: Seq<char>| strip_cr(p)),
            strs_view(out@) =~~= target.take(i as int),
        decreases parts@.len() - i,
    {
        let part = &parts[i];
        let plen = part.as_str().unicode_len();
        let stripped: String = if plen > 0 && part.as_str().get_char(plen - 1) == '\r' {
            part.as_str().substring_char(0, plen - 1).to_owned()
        } else {
            part.clone()
        };
        proof {
            assert(part@.drop_last() =~= part@.subrange(0, part@.len() - 1));
            assert(stripped@ == strip_cr(strs_view(parts@)[i as int]));
            assert(strs_view(out@.push(stripped)) =~~= strs_view(out@).push(stripped@));
            assert(strs_view(out@).push(stripped@) =~~= target.take(i as int + 1));
        }
        out.push(stripped);
        i += 1;
    }
    proof {
        assert(target.take(parts@.len() as int) =~= target);
    }
    out
}

/// Splitting yields one more part than there are separators; in particular,
/// never zero parts.
pub proof fn lemma_split_len(s: Seq<char>, c: char)
    ensures
        split_seq(s, c).len() >= 1,
    decreases s.len(),
{
    if s.len() > 0 {
        lemma_split_len(s.drop_first(), c);
    }
}

/// Concatenate the parts with `sep` between consecutive parts.
pub open spec fn join_v(parts: Seq<Seq<char>>, sep: Seq<char>) -> Seq<char>
    decreases parts.len(),
{
    if parts.len() == 0 {
        Seq::empty()
    } else if parts.len() == 1 {
        parts[0]
    } else {
        join_v(parts.drop_last(), sep) + sep + parts.last()
    }
}

/// Join owned strings with a separator.
pub fn join_strings(parts: &Vec<String>, sep: &str) -> (r: String)
    ensures
        r@ == join_v(strs_view(parts@), sep@),
{
    let mut out = String::new();
    let mut i: usize = 0;
    while i < parts.len()
        invariant
            i <= parts@.len(),
            out@ == join_v(strs_view(parts@).take(i as int), sep@),
        decreases parts@.len() - i,
    {
        if i > 0 {
            out.append(sep);
        }
        out.append(parts[i].as_str());
        proof {
            assert(strs_view(parts@).take(i as int + 1).drop_last() =~= strs_view(parts@).take(
                i as int,
            ));
            assert(strs_view(parts@).take(i as int + 1).last() == parts@[i as int]@);
        }
        i += 1;
    }
    proof {
        assert(strs_view(parts@).take(parts@.len() as int) =~= strs_view(parts@));
    }
    out
}

/// `s` with every leading and trailing occurrence of `c` removed.
pub open spec fn trim_char_start_v(s: Seq<char>, c: char) -> Seq<char>
    decreases s.len(),
{
    if s.len() > 0 && s[0] == c {
        trim_char_start_v(s.drop_first(), c)
    } else {
        s
    }
}

pub open spec fn trim_char_end_v(s: Seq<char>, c: char) -> Seq<char>
    decreases s.len(),
{
    if s.len() > 0 && s.last() == c {
        trim_char_end_v(s.drop_last(), c)
    } else {
        s
    }
}

pub open spec fn trim_char_v(s: Seq<char>, c: char) -> Seq<char> {
    trim_char_end_v(trim_char_start_v(s, c), c)
}

/// Remove every leading and trailing occurrence of `c` from `s`.
pub fn trim_char(s: &str, c: char) -> (r: &str)
    ensures
        r@ == trim_char_v(s@, c),
{
    let slen = s.unicode_len();
    let mut start: usize = 0;
    proof {
        assert(s@.skip(0) =~= s@);
    }
    loop
        invariant_except_break
            slen == s@.len(),
            start <= slen,
            trim_char_start_v(s@, c) == trim_char_start_v(s@.skip(start as int), c),
        ensures
            slen == s@.len(),
            start <= slen,
            trim_char_start_v(s@, c) == s@.skip(start as int),
        decreases slen - start,
    {
        if start >= slen {
            proof {
                assert(s@.skip(start as int) =~= Seq::<char>::empty());
            }
            break;
        }
        if s.get_char(start) != c {
            break;
        }
        proof {
            assert(s@.skip(start as int).drop_first() =~= s@.skip(start as int + 1));
        }
        start += 1;
    }
    proof {
        assert(s@.subrange(start as int, slen as int) =~= s@.skip(start as int));
    }
    let mut end: usize = slen;
    loop
        invariant_except_break
            slen == s@.len(),
            start <= end <= slen,
            trim_char_start_v(s@, c) == s@.subrange(start as int, slen as int),
            trim_char_end_v(s@.subrange(start as int, slen as int), c) == trim_char_end_v(
                s@.subrange(start as int, end as int),
                c,
            ),
        ensures
            start <= end <= slen,
            slen == s@.len(),
            trim_char_v(s@, c) == s@.subrange(start as int, end as int),
        decreases end,
    {
        if end <= start {
            break;
        }
        if s.get_char(end - 1) != c {
            break;
        }
        proof {
            assert(s@.subrange(start as int, end as int).drop_last() =~= s@.subrange(
                start as int,
                end as int - 1,
            ));
        }
        end -= 1;
    }
    s.substring_char(start, end)
}

/// `s` with every repetition of the prefix `p` removed from the front.
pub open spec fn trim_start_matches_v(s: Seq<char>, p: Seq<char>) -> Seq<char>
    decreases s.len(),
{
    if p.len() > 0 && is_prefix(s, p) {
        trim_start_matches_v(s.skip(p.len() as int), p)
    } else {
        s
    }
}

/// Remove every repetition of the prefix `p` from the front of `s`.
pub fn trim_start_matches<'a>(s: &'a str, p: &str) -> (r: &'a str)
    ensures
        r@ == trim_start_matches_v(s@, p@),
{
    let plen = p.unicode_len();
    if plen == 0 {
        return s;
    }
    let mut cur: &str = s;
    loop
        invariant_except_break
            plen == p@.len(),
            plen > 0,
            trim_start_matches_v(s@, p@) == trim_start_matches_v(cur@, p@),
        ensures
            trim_start_matches_v(s@, p@) == cur@,
        decreases cur@.len(),
    {
        if !starts_with(cur, p) {
            break;
        }
        let clen = cur.unicode_len();
        cur = cur.substring_char(plen, clen);
    }
    cur
}

/// Index of the last occurrence of `c` in `s`.
pub open spec fn last_index_of(s: Seq<char>, c: char) -> Option<int>
    decreases s.len(),
{
    if s.len() == 0 {
        None
    } else if s.last() == c {
        Some(s.len() - 1)
    } else {
        last_index_of(s.drop_last(), c)
    }
}

/// What follows the last `/` of a path, or the whole path if it has none.
pub open spec fn last_component_v(s: Seq<char>) -> Seq<char> {
    match last_index_of(s, '/') {
        Some(i) => s.skip(i + 1),
        None => s,
    }
}

/// The file-name part of a slash-separated path.
pub fn last_path_component(s: &str) -> (r: &str)
    ensures
        r@ == last_component_v(s@),
{
    let slen = s.unicode_len();
    let mut j: usize = slen;
    proof {
        assert(s@.take(slen as int) =~= s@);
    }
    loop
        invariant_except_break
            slen == s@.len(),
            j <= slen,
            last_index_of(s@, '/') == last_index_of(s@.take(j as int), '/'),
        ensures
            j <= slen,
            slen == s@.len(),
            last_component_v(s@) == s@.subrange(j as int, slen as int),
        decreases j,
    {
        if j == 0 {
            proof {
                assert(s@.subrange(0, slen as int) =~= s@);
            }
            break;
        }
        if s.get_char(j - 1) == '/' {
            proof {
                assert(s@.take(j as int).last() == s@[j as int - 1]);
                assert(s@.skip(j as int) =~= s@.subrange(j as int, slen as int));
            }
            break;
        }
        proof {
            assert(s@.take(j as int).drop_last() =~= s@.take(j as int - 1));
        }
        j -= 1;
    }
    s.substring_char(j, slen)
}

/// The whitespace-separated tokens of `s`: maximal runs of non-whitespace
/// characters, in order.
pub open spec fn split_ws_v(s: Seq<char>) -> Seq<Seq<char>>
    decreases s.len(),
{
    if s.len() == 0 {
        Seq::empty()
    } else if is_ws(s[0]) {
        split_ws_v(s.drop_first())
    } else {
        let rest = split_ws_v(s.drop_first());
        if s.len() > 1 && !is_ws(s[1]) {
            seq![seq![s[0]] + rest[0]] + rest.skip(1)
        } else {
            seq![seq![s[0]]] + rest
        }
    }
}

/// A non-empty whitespace-free token followed by whitespace (or the end) is
/// the first token of the concatenation.
pub proof fn lemma_split_ws_token(p: Seq<char>, r: Seq<char>)
    requires
        p.len() > 0,
        forall|k: int| 0 <= k < p.len() ==> !is_ws(#[trigger] p[k]),
        r.len() == 0 || is_ws(r[0]),
    ensures
        split_ws_v(p + r) == seq![p] + split_ws_v(r),
    decreases p.len(),
{
    let s = p + r;
    assert(s[0] == p[0]);
    if p.len() == 1 {
        assert(s.drop_first() =~= r);
        if r.len() == 0 {
            assert(s.len() == 1);
            assert(seq![seq![s[0]]] =~~= seq![p] + split_ws_v(r));
        } else {
            assert(s.len() > 1 && s[1] == r[0]);
            assert(seq![seq![s[0]]] + split_ws_v(r) =~~= seq![p] + split_ws_v(r));
        }
    } else {
        assert(s.drop_first() =~= p.drop_first() + r);
        lemma_split_ws_token(p.drop_first(), r);
        let rest = split_ws_v(s.drop_first());
        assert(rest == seq![p.drop_first()] + split_ws_v(r));
        assert(rest[0] == p.drop_first());
        assert(s.len() > 1 && s[1] == p[1]);
        assert(seq![s[0]] + rest[0] =~= p);
        assert(rest.skip(1) =~= split_ws_v(r));
        assert(split_ws_v(s) =~~= seq![p] + split_ws_v(r));
    }
}

/// Split `s` into whitespace-separated tokens.
pub fn split_whitespace_tokens(s: &str) -> (r: Vec<String>)
    ensures
        strs_view(r@) == split_ws_v(s@),
{
    let slen = s.unicode_len();
    let mut out: Vec<String> = Vec::new();
    let mut pos: usize = 0;
    proof {
        assert(s@.skip(0) =~= s@);
        assert(strs_view(out@) =~= Seq::<Seq<char>>::empty());
    }
    while pos < slen
        invariant
            pos <= slen,
            slen == s@.len(),
            split_ws_v(s@) == strs_view(out@) + split_ws_v(s@.skip(pos as int)),
        decreases slen - pos,
    {
        let c = s.get_char(pos);
        if c == ' ' || c == '\t' || c == '\r' || c == '\n' {
            proof {
                assert(s@.skip(pos as int).drop_first() =~= s@.skip(pos as int + 1));
            }
            pos += 1;
        } else {
            let mut j = pos + 1;
            while j < slen
                invariant_except_break
                    pos < j <= slen,
                    slen == s@.len(),
                    forall|k: int| pos <= k < j ==> !is_ws(#[trigger] s@[k]),
                ensures
                    pos < j <= slen,
                    slen == s@.len(),
                    forall|k: int| pos <= k < j ==> !is_ws(#[trigger] s@[k]),
                    j == slen || is_ws(s@[j as int]),
                decreases slen - j,
            {
                let cj = s.get_char(j);
                if cj == ' ' || cj == '\t' || cj == '\r' || cj == '\n' {
                    break;
                }
                j += 1;
            }
            let token = s.substring_char(pos, j).to_owned();
            proof {
                assert(token@ =~= s@.subrange(pos as int, j as int));
                assert(s@.skip(pos as int) =~= token@ + s@.skip(j as int));
                lemma_split_ws_token(token@, s@.skip(j as int));
                assert(strs_view(out@.push(token)) =~= strs_view(out@) + seq![token@]);
                assert((strs_view(out@) + seq![token@]) + split_ws_v(s@.skip(j as int))
                    =~~= strs_view(out@) + (seq![token@] + split_ws_v(s@.skip(j as int))));
            }
            out.push(token);
            pos = j;
        }
    }
    proof {
        assert(s@.skip(slen as int) =~= Seq::<char>::empty());
        assert(strs_view(out@) + Seq::<Seq<char>>::empty() =~= strs_view(out@));
    }
    out
}

/// Each line indented by two spaces and terminated by a newline.
pub open spec fn indented_lines_v(lines: Seq<Seq<char>>) -> Seq<char>
    decreases lines.len(),
{
    if lines.len() == 0 {
        Seq::empty()
    } else {
        indented_lines_v(lines.drop_last()) + "  "@ + lines.last() + "\n"@
    }
}

/// Indent up to `limit` of the given lines by two spaces, one per line.
pub fn indent_lines(lines: &Vec<String>, limit: usize) -> (r: String)
    ensures
        r@ == indented_lines_v(
            strs_view(lines@).take(if limit as int <= lines@.len() {
                limit as int
            } else {
                lines@.len() as int
            }),
        ),
{
    let n = if limit <= lines.len() {
        limit
    } else {
        lines.len()
    };
    let mut out = String::new();
    let mut i: usize = 0;
    proof {
        assert(out@ =~= indented_lines_v(strs_view(lines@).take(0)));
    }
    while i < n
        invariant
            i <= n,
            n <= lines@.len(),
            out@ == indented_lines_v(strs_view(lines@).take(i as int)),
        decreases n - i,
    {
        out.append("  ");
        out.append(lines[i].as_str());
        out.append("\n");
        proof {
            assert(strs_view(lines@).take(i as int + 1).drop_last() =~= strs_view(lines@).take(
                i as int,
            ));
            assert(strs_view(lines@).take(i as int + 1).last() == lines@[i as int]@);
        }
        i += 1;
    }
    out
}

/// The decimal digit character for `d`.
pub open spec fn dec_char(d: int) -> char {
    if d == 0 {
        '0'
    } else if d == 1 {
        '1'
    } else if d == 2 {
        '2'
    } else if d == 3 {
        '3'
    } else if d == 4 {
        '4'
    } else if d == 5 {
        '5'
    } else if d == 6 {
        '6'
    } else if d == 7 {
        '7'
    } else if d == 8 {
        '8'
    } else {
        '9'
    }
}

/// The decimal numeral of a nonnegative number.
pub open spec fn dec_str(n: int) -> Seq<char>
    decreases n,
{
    if n < 10 {
        seq![dec_char(n)]
    } else {
        dec_str(n / 10) + seq![dec_char(n % 10)]
    }
}

fn digit_string(d: u32) -> (r: String)
    requires
        d < 10,
    ensures
        r@ == seq![dec_char(d as int)],
{
    let lit: &str = match d {
        0 => "0",
        1 => "1",
        2 => "2",
        3 => "3",
        4 => "4",
        5 => "5",
        6 => "6",
        7 => "7",
        8 => "8",
        _ => "9",
    };
    proof {
        reveal_strlit("0");
        reveal_strlit("1");
        reveal_strlit("2");
        reveal_strlit("3");
        reveal_strlit("4");
        reveal_strlit("5");
        reveal_strlit("6");
        reveal_strlit("7");
        reveal_strlit("8");
        reveal_strlit("9");
        assert(lit@ =~= seq![dec_char(d as int)]);
    }
    lit.to_owned()
}

/// Render `n` in decimal.
pub fn u32_to_string(n: u32) -> (r: String)
    ensures
        r@ == dec_str(n as int),
    decreases n,
{
    if n < 10 {
        digit_string(n)
    } else {
        let mut s = u32_to_string(n / 10);
        let d = digit_string(n % 10);
        s.append(d.as_str());
        s
    }
}

} // verus!
