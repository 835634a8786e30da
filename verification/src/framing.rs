//! The line framer: strips the dump-level array framing (bracket lines,
//! per-record trailing comma) and yields one candidate JSON text per record
//! line.

use vstd::prelude::*;

verus! {

/// The whitespace that may surround a structural bracket line.
pub open spec fn is_space(c: char) -> bool {
    c == ' ' || c == '\t' || c == '\r' || c == '\n'
}

/// `s` without its leading whitespace.
pub open spec fn trim_front(s: Seq<char>) -> Seq<char>
    decreases s.len(),
{
    if s.len() > 0 && is_space(s[0]) {
        trim_front(s.drop_first())
    } else {
        s
    }
}

/// `s` without its trailing whitespace.
pub open spec fn trim_back(s: Seq<char>) -> Seq<char>
    decreases s.len(),
{
    if s.len() > 0 && is_space(s.last()) {
        trim_back(s.drop_last())
    } else {
        s
    }
}

/// `s` without its surrounding whitespace.
pub open spec fn trim(s: Seq<char>) -> Seq<char> {
    trim_back(trim_front(s))
}

/// Whether a line is dump-structural noise: exactly an opening or closing
/// array bracket, up to surrounding whitespace.
pub open spec fn is_noise(line: Seq<char>) -> bool {
    trim(line) == seq!['['] || trim(line) == seq![']']
}

/// What the framer yields for one raw line: nothing for a structural line;
/// otherwise the line, less a single trailing separator comma if one is
/// there.
pub open spec fn spec_frame(line: Seq<char>) -> Option<Seq<char>> {
    if is_noise(line) {
        None
    } else if line.len() > 0 && line.last() == ',' {
        Some(line.drop_last())
    } else {
        Some(line)
    }
}

proof fn lemma_trim_front_skip(s: Seq<char>, i: int)
    requires
        0 <= i <= s.len(),
        forall|k: int| 0 <= k < i ==> is_space(s[k]),
        i < s.len() ==> !is_space(s[i]),
    ensures
        trim_front(s) == s.skip(i),
    decreases i,
{
    if i == 0 {
        assert(s.skip(0) =~= s);
    } else {
        lemma_trim_front_skip(s.drop_first(), i - 1);
        assert(s.drop_first().skip(i - 1) =~= s.skip(i));
    }
}

proof fn lemma_trim_back_take(s: Seq<char>, j: int)
    requires
        0 <= j <= s.len(),
        forall|k: int| j <= k < s.len() ==> is_space(s[k]),
        j > 0 ==> !is_space(s[j - 1]),
    ensures
        trim_back(s) == s.take(j),
    decreases s.len() - j,
{
    if j == s.len() {
        assert(s.take(j) =~= s);
    } else {
        lemma_trim_back_take(s.drop_last(), j);
        assert(s.drop_last().take(j) =~= s.take(j));
    }
}

/// Between the bounds that the two scans find, the trimmed line is the
/// subrange.
proof fn lemma_trim_subrange(s: Seq<char>, i: int, j: int)
    requires
        0 <= i <= j <= s.len(),
        forall|k: int| 0 <= k < i ==> is_space(s[k]),
        forall|k: int| j <= k < s.len() ==> is_space(s[k]),
        i < s.len() ==> !is_space(s[i]),
        j > i ==> !is_space(s[j - 1]),
    ensures
        trim(s) == s.subrange(i, j),
    decreases s.len(),
{
    if i == s.len() {
        lemma_trim_front_skip(s, i);
        assert(trim_front(s) =~= Seq::<char>::empty());
        assert(s.subrange(i, j) =~= Seq::<char>::empty());
    } else {
        lemma_trim_front_skip(s, i);
        lemma_trim_back_take(s.skip(i), j - i);
        assert(s.skip(i).take(j - i) =~= s.subrange(i, j));
    }
}

proof fn lemma_trim_front_push(s: Seq<char>, c: char)
    requires
        !is_space(c),
    ensures
        trim_front(s.push(c)) == trim_front(s).push(c),
    decreases s.len(),
{
    if s.len() > 0 && is_space(s[0]) {
        assert(s.push(c).drop_first() =~= s.drop_first().push(c));
        lemma_trim_front_push(s.drop_first(), c);
    } else if s.len() == 0 {
        assert(trim_front(s.push(c)) == s.push(c));
    }
}

/// A candidate record line with the trailing separator comma frames to the
/// same candidate text as the identical line without it: the framer inspects
/// the last character rather than assuming a separator.
pub proof fn lemma_trailing_comma(line: Seq<char>)
    requires
        !is_noise(line),
        line.len() == 0 || line.last() != ',',
    ensures
        spec_frame(line) == Some(line),
        spec_frame(line.push(',')) == Some(line),
{
    lemma_trim_front_push(line, ',');
    let tf = trim_front(line);
    assert(trim_back(tf.push(',')) == tf.push(','));
    assert(trim(line.push(',')) == tf.push(','));
    assert(trim(line.push(',')) != seq!['[']) by {
        if tf.push(',') == seq!['['] {
            assert(tf.push(',').len() == 1);
            assert(tf.push(',')[0] == ',');
            assert(seq!['['][0] == '[');
        }
    }
    assert(trim(line.push(',')) != seq![']']) by {
        if tf.push(',') == seq![']'] {
            assert(tf.push(',').len() == 1);
            assert(tf.push(',')[0] == ',');
            assert(seq![']'][0] == ']');
        }
    }
    assert(line.push(',').last() == ',');
    assert(line.push(',').drop_last() =~= line);
}

/// Whether a character is framing whitespace.
fn space(c: char) -> (r: bool)
    ensures
        r == is_space(c),
{
    c == ' ' || c == '\t' || c == '\r' || c == '\n'
}

/// Decide whether a raw line is structural noise or a candidate record, and
/// for a candidate yield the exact text that should parse as one JSON object.
pub fn frame_line<'a>(line: &'a str) -> (r: Option<&'a str>)
    ensures
        match r {
            Some(t) => spec_frame(line@) == Some(t@),
            None => spec_frame(line@) is None,
        },
{
    let n = line.unicode_len();
    let mut i: usize = 0;
    while i < n && space(line.get_char(i))
        invariant
            n == line@.len(),
            i <= n,
            forall|k: int| 0 <= k < i ==> is_space(line@[k]),
        decreases n - i,
    {
        i += 1;
    }
    let mut j: usize = n;
    while j > i && space(line.get_char(j - 1))
        invariant
            n == line@.len(),
            i <= j <= n,
            forall|k: int| j <= k < n ==> is_space(line@[k]),
        decreases j,
    {
        j -= 1;
    }
    proof {
        lemma_trim_subrange(line@, i as int, j as int);
    }
    if j - i == 1 {
        let c = line.get_char(i);
        if c == '[' || c == ']' {
            proof {
                assert(trim(line@) =~= seq![c]);
            }
            return None;
        }
    }
    proof {
        assert(trim(line@).len() == j - i);
        assert(!is_noise(line@)) by {
            if j - i == 1 {
                assert(trim(line@)[0] == line@[i as int]);
            }
        }
    }
    if n > 0 && line.get_char(n - 1) == ',' {
        let t = line.substring_char(0, n - 1);
        proof {
            assert(t@ =~= line@.drop_last());
        }
        Some(t)
    } else {
        Some(line)
    }
}

} // verus!
