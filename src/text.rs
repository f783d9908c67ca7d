use vstd::prelude::*;
use vstd::std_specs::iter::IteratorSpec;

verus! {

/// Copies the characters of `s` into a vector, in order.
pub fn chars_of(s: &str) -> (r: Vec<char>)
    ensures
        r@ == s@,
{
    let mut out: Vec<char> = Vec::new();
    let mut it = s.chars();
    loop
        invariant
            it.remaining() == s@.skip(out@.len() as int),
            out@ == s@.take(out@.len() as int),
            out@.len() <= s@.len(),
        ensures
            out@ == s@,
        decreases s@.len() - out@.len(),
    {
        match it.next() {
            Some(c) => {
                out.push(c);
            },
            None => {
                assert(s@.skip(out@.len() as int).len() == 0);
                assert(out@ =~= s@);
                break;
            },
        }
    }
    out
}

} // verus!

verus! {

/// Unicode's `White_Space` property, the characters `char::is_whitespace` accepts.
pub open spec fn is_white_space(c: char) -> bool {
    let u = c as u32;
    ||| 0x09 <= u <= 0x0D
    ||| u == 0x20
    ||| u == 0x85
    ||| u == 0xA0
    ||| u == 0x1680
    ||| 0x2000 <= u <= 0x200A
    ||| u == 0x2028
    ||| u == 0x2029
    ||| u == 0x202F
    ||| u == 0x205F
    ||| u == 0x3000
}

pub fn is_white(c: char) -> (r: bool)
    ensures
        r == is_white_space(c),
{
    let u = c as u32;
    (0x09 <= u && u <= 0x0D) || u == 0x20 || u == 0x85 || u == 0xA0 || u == 0x1680 || (0x2000 <= u
        && u <= 0x200A) || u == 0x2028 || u == 0x2029 || u == 0x202F || u == 0x205F || u == 0x3000
}

/// `s` without its leading white space.
pub open spec fn trim_start(s: Seq<char>) -> Seq<char>
    decreases s.len(),
{
    if s.len() > 0 && is_white_space(s[0]) {
        trim_start(s.drop_first())
    } else {
        s
    }
}

/// `s` without its trailing white space.
pub open spec fn trim_end(s: Seq<char>) -> Seq<char>
    decreases s.len(),
{
    if s.len() > 0 && is_white_space(s.last()) {
        trim_end(s.drop_last())
    } else {
        s
    }
}

/// `s` without white space at either end.
pub open spec fn trimmed(s: Seq<char>) -> Seq<char> {
    trim_end(trim_start(s))
}

/// Builds a `String` from the characters `from..to` of `s`.
pub fn substring(s: &str, from: usize, to: usize) -> (r: String)
    requires
        from <= to <= s@.len(),
    ensures
        r@ == s@.subrange(from as int, to as int),
{
    String::from_str(s.substring_char(from, to))
}

/// The text of `s` without white space at either end.
pub fn trim(s: &str) -> (r: String)
    ensures
        r@ == trimmed(s@),
{
    let v = chars_of(s);
    let n = v.len();
    let mut i: usize = 0;
    assert(s@.subrange(0, n as int) =~= s@);
    while i < n && is_white(v[i])
        invariant
            i <= n == s@.len(),
            v@ == s@,
            trim_start(s@) == trim_start(s@.subrange(i as int, n as int)),
        decreases n - i,
    {
        assert(s@.subrange(i as int, n as int).drop_first() =~= s@.subrange(i + 1, n as int));
        i = i + 1;
    }
    assert(trim_start(s@.subrange(i as int, n as int)) == s@.subrange(i as int, n as int));
    let mut j: usize = n;
    while j > i && is_white(v[j - 1])
        invariant
            i <= j <= n == s@.len(),
            v@ == s@,
            trimmed(s@) == trim_end(s@.subrange(i as int, j as int)),
        decreases j,
    {
        assert(s@.subrange(i as int, j as int).drop_last() =~= s@.subrange(i as int, j - 1));
        j = j - 1;
    }
    substring(s, i, j)
}

} // verus!

verus! {

proof fn lemma_trim_start_suffix(s: Seq<char>)
    ensures
        trim_start(s) == s.skip(s.len() - trim_start(s).len()),
        trim_start(s).len() <= s.len(),
    decreases s.len(),
{
    if s.len() > 0 && is_white_space(s[0]) {
        lemma_trim_start_suffix(s.drop_first());
        let k = s.drop_first().len() - trim_start(s.drop_first()).len();
        assert(s.drop_first().skip(k) =~= s.skip(k + 1));
    } else {
        assert(s.skip(0) =~= s);
    }
}

proof fn lemma_trim_end_prefix(s: Seq<char>)
    ensures
        trim_end(s) == s.take(trim_end(s).len() as int),
        trim_end(s).len() <= s.len(),
        trim_end(s).len() > 0 ==> !is_white_space(trim_end(s).last()),
    decreases s.len(),
{
    if s.len() > 0 && is_white_space(s.last()) {
        lemma_trim_end_prefix(s.drop_last());
        let k = trim_end(s.drop_last()).len() as int;
        assert(s.drop_last().take(k) =~= s.take(k));
    } else {
        assert(s.take(s.len() as int) =~= s);
    }
}

/// Trimming a text without line breaks gives a text without line breaks
/// that does not end in a carriage return: one line of the file.
pub proof fn lemma_trimmed_single_line(t: Seq<char>)
    requires
        forall|i: int| 0 <= i < t.len() ==> t[i] != '\n',
    ensures
        forall|i: int| 0 <= i < trimmed(t).len() ==> trimmed(t)[i] != '\n',
        !(trimmed(t).len() > 0 && trimmed(t).last() == '\r'),
{
    lemma_trim_start_suffix(t);
    lemma_trim_end_prefix(trim_start(t));
    let off = t.len() - trim_start(t).len();
    assert forall|i: int| 0 <= i < trimmed(t).len() implies trimmed(t)[i] != '\n' by {
        assert(trimmed(t)[i] == trim_start(t)[i]);
        assert(trim_start(t)[i] == t[off + i]);
    }
    assert(is_white_space('\r'));
}

} // verus!
