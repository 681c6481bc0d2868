//! Splitting transcript text into space-separated tokens and joining tokens
//! back, together with the algebra that relates the two.

use vstd::prelude::*;

verus! {

/// The pieces of `s` between occurrences of the space character. Always at
/// least one piece; pieces may be empty when spaces are adjacent or at the
/// ends.
pub open spec fn split_spaces(s: Seq<char>) -> Seq<Seq<char>>
    decreases s.len(),
{
    if s.len() == 0 {
        seq![Seq::<char>::empty()]
    } else if s[0] == ' ' {
        seq![Seq::<char>::empty()] + split_spaces(s.skip(1))
    } else {
        let rest = split_spaces(s.skip(1));
        seq![seq![s[0]] + rest[0]] + rest.skip(1)
    }
}

/// The pieces joined back together with a single space between them.
pub open spec fn join_spaced(parts: Seq<Seq<char>>) -> Seq<char>
    decreases parts.len(),
{
    if parts.len() == 0 {
        Seq::<char>::empty()
    } else if parts.len() == 1 {
        parts[0]
    } else {
        parts[0] + seq![' '] + join_spaced(parts.skip(1))
    }
}

/// Splitting always yields at least one piece.
pub proof fn lemma_split_spaces_len(s: Seq<char>)
    ensures
        split_spaces(s).len() >= 1,
    decreases s.len(),
{
    if s.len() == 0 {
    } else if s[0] == ' ' {
        lemma_split_spaces_len(s.skip(1));
    } else {
        lemma_split_spaces_len(s.skip(1));
    }
}

/// How one appended character changes the pieces: a space opens a fresh
/// empty piece, anything else extends the last piece.
pub proof fn lemma_split_spaces_push(s: Seq<char>, c: char)
    ensures
        split_spaces(s.push(c)) == if c == ' ' {
            split_spaces(s).push(Seq::<char>::empty())
        } else {
            split_spaces(s).update(
                split_spaces(s).len() - 1,
                split_spaces(s).last().push(c),
            )
        },
    decreases s.len(),
{
    reveal_with_fuel(split_spaces, 3);
    lemma_split_spaces_len(s);
    if s.len() == 0 {
        assert(s.push(c).skip(1) =~= Seq::<char>::empty());
        if c == ' ' {
            assert(split_spaces(s.push(c)) =~= split_spaces(s).push(Seq::<char>::empty()));
        } else {
            assert(seq![s.push(c)[0]] + split_spaces(s.push(c).skip(1))[0] =~= seq![c]);
            assert(split_spaces(s.push(c)) =~= split_spaces(s).update(
                split_spaces(s).len() - 1,
                split_spaces(s).last().push(c),
            ));
        }
    } else {
        lemma_split_spaces_push(s.skip(1), c);
        lemma_split_spaces_len(s.skip(1));
        assert(s.push(c).skip(1) =~= s.skip(1).push(c));
        assert(s.push(c)[0] == s[0]);
        if c == ' ' {
            assert(split_spaces(s.push(c)) =~= split_spaces(s).push(Seq::<char>::empty()));
        } else {
            assert(split_spaces(s.push(c)) =~= split_spaces(s).update(
                split_spaces(s).len() - 1,
                split_spaces(s).last().push(c),
            ));
        }
    }
}

/// How one appended piece changes the joined text.
pub proof fn lemma_join_spaced_push(parts: Seq<Seq<char>>, t: Seq<char>)
    ensures
        join_spaced(parts.push(t)) == if parts.len() == 0 {
            t
        } else {
            join_spaced(parts) + seq![' '] + t
        },
    decreases parts.len(),
{
    reveal_with_fuel(join_spaced, 3);
    if parts.len() == 0 {
        assert(join_spaced(parts.push(t)) == parts.push(t)[0]);
        assert(parts.push(t)[0] == t);
    } else if parts.len() == 1 {
        assert(parts.push(t).skip(1) =~= seq![t]);
        assert(join_spaced(parts.push(t)) == parts[0] + seq![' '] + t);
    } else {
        lemma_join_spaced_push(parts.skip(1), t);
        assert(parts.push(t).skip(1) =~= parts.skip(1).push(t));
        assert(parts.push(t)[0] == parts[0]);
        assert(join_spaced(parts.push(t)) == parts[0] + seq![' '] + join_spaced(
            parts.skip(1).push(t),
        ));
        assert(parts[0] + seq![' '] + (join_spaced(parts.skip(1)) + seq![' '] + t) =~= (parts[0]
            + seq![' '] + join_spaced(parts.skip(1))) + seq![' '] + t);
    }
}

/// Joining distributes over concatenation of nonempty piece lists.
pub proof fn lemma_join_spaced_concat(a: Seq<Seq<char>>, b: Seq<Seq<char>>)
    requires
        a.len() > 0,
        b.len() > 0,
    ensures
        join_spaced(a + b) == join_spaced(a) + seq![' '] + join_spaced(b),
    decreases b.len(),
{
    if b.len() == 1 {
        lemma_join_spaced_push(a, b[0]);
        assert(a + b =~= a.push(b[0]));
        assert(join_spaced(b) == b[0]);
    } else {
        lemma_join_spaced_concat(a, b.drop_last());
        lemma_join_spaced_push(a + b.drop_last(), b.last());
        lemma_join_spaced_push(b.drop_last(), b.last());
        assert(a + b =~= (a + b.drop_last()).push(b.last()));
        assert(b.drop_last().push(b.last()) =~= b);
        assert((join_spaced(a) + seq![' '] + join_spaced(b.drop_last())) + seq![' '] + b.last()
            =~= join_spaced(a) + seq![' '] + (join_spaced(b.drop_last()) + seq![' ']
            + b.last()));
    }
}

/// Joining the pieces of a split gives back the original text.
pub proof fn lemma_join_split_identity(s: Seq<char>)
    ensures
        join_spaced(split_spaces(s)) == s,
    decreases s.len(),
{
    if s.len() == 0 {
    } else {
        let front = s.drop_last();
        let c = s.last();
        lemma_join_split_identity(front);
        lemma_split_spaces_push(front, c);
        lemma_split_spaces_len(front);
        let parts = split_spaces(front);
        assert(front.push(c) =~= s);
        if c == ' ' {
            lemma_join_spaced_push(parts, Seq::<char>::empty());
            assert(join_spaced(split_spaces(s)) =~= s);
        } else {
            let updated = parts.update(parts.len() - 1, parts.last().push(c));
            if parts.len() == 1 {
                assert(join_spaced(updated) == updated[0]);
                assert(updated[0] =~= s);
            } else {
                assert(updated =~= updated.drop_last().push(parts.last().push(c)));
                assert(updated.drop_last() =~= parts.drop_last());
                lemma_join_spaced_push(parts.drop_last(), parts.last().push(c));
                lemma_join_spaced_push(parts.drop_last(), parts.last());
                assert(parts.drop_last().push(parts.last()) =~= parts);
                assert(join_spaced(parts.drop_last()) + seq![' '] + parts.last().push(c)
                    =~= (join_spaced(parts.drop_last()) + seq![' '] + parts.last()).push(c));
                assert(join_spaced(split_spaces(s)) =~= s);
            }
        }
    }
}

/// The text with its leading spaces removed.
pub open spec fn trim_front(s: Seq<char>) -> Seq<char>
    decreases s.len(),
{
    if s.len() > 0 && s[0] == ' ' {
        trim_front(s.skip(1))
    } else {
        s
    }
}

/// The text with its trailing spaces removed.
pub open spec fn trim_back(s: Seq<char>) -> Seq<char>
    decreases s.len(),
{
    if s.len() > 0 && s.last() == ' ' {
        trim_back(s.drop_last())
    } else {
        s
    }
}

/// The text with leading and trailing spaces removed.
pub open spec fn trim_spaces(s: Seq<char>) -> Seq<char> {
    trim_back(trim_front(s))
}

/// Trimming the front keeps exactly the part after the leading spaces.
pub proof fn lemma_trim_front_skip(s: Seq<char>, i: int)
    requires
        0 <= i <= s.len(),
        forall|m: int| 0 <= m < i ==> s[m] == ' ',
        i == s.len() || s[i] != ' ',
    ensures
        trim_front(s) == s.skip(i),
    decreases i,
{
    if i == 0 {
        assert(s.skip(0) =~= s);
    } else {
        lemma_trim_front_skip(s.skip(1), i - 1);
        assert(s.skip(1).skip(i - 1) =~= s.skip(i));
    }
}

/// Trimming the back keeps exactly the part before the trailing spaces.
pub proof fn lemma_trim_back_take(s: Seq<char>, j: int)
    requires
        0 <= j <= s.len(),
        forall|m: int| j <= m < s.len() ==> s[m] == ' ',
        j == 0 || s[j - 1] != ' ',
    ensures
        trim_back(s) == s.take(j),
    decreases s.len(),
{
    if j == s.len() {
        if s.len() > 0 {
            assert(s.last() != ' ');
        }
        assert(s.take(j) =~= s);
    } else {
        assert(s.last() == ' ');
        lemma_trim_back_take(s.drop_last(), j);
        assert(s.drop_last() =~= s.take(s.len() - 1));
        assert(s.take(s.len() - 1).take(j) =~= s.take(j));
    }
}

/// Trimmed text neither starts nor ends with a space.
pub proof fn lemma_trim_spaces_clean(s: Seq<char>)
    ensures
        trim_spaces(s).len() > 0 ==> trim_spaces(s)[0] != ' ',
        trim_spaces(s).len() > 0 ==> trim_spaces(s).last() != ' ',
        trim_spaces(trim_spaces(s)) == trim_spaces(s),
    decreases s.len(),
{
    lemma_trim_front_clean(s);
    lemma_trim_back_clean(trim_front(s));
    let t = trim_spaces(s);
    if t.len() > 0 {
        assert(trim_front(t) == t);
        assert(trim_back(t) == t);
    } else {
        assert(t =~= Seq::<char>::empty());
        assert(trim_front(t) == t);
        assert(trim_back(t) == t);
    }
}

/// Front-trimmed text does not start with a space, and trimming the back
/// afterwards does not bring one back.
proof fn lemma_trim_front_clean(s: Seq<char>)
    ensures
        trim_front(s).len() > 0 ==> trim_front(s)[0] != ' ',
        trim_front(s).len() > 0 && trim_back(trim_front(s)).len() > 0 ==> trim_back(
            trim_front(s),
        )[0] != ' ',
    decreases s.len(),
{
    if s.len() > 0 && s[0] == ' ' {
        lemma_trim_front_clean(s.skip(1));
    } else {
        lemma_trim_back_keeps_front(s);
    }
}

/// Back-trimmed text does not end with a space.
proof fn lemma_trim_back_clean(s: Seq<char>)
    ensures
        trim_back(s).len() > 0 ==> trim_back(s).last() != ' ',
    decreases s.len(),
{
    if s.len() > 0 && s.last() == ' ' {
        lemma_trim_back_clean(s.drop_last());
    }
}

/// Trimming the back keeps the first character of nonempty results.
proof fn lemma_trim_back_keeps_front(s: Seq<char>)
    ensures
        trim_back(s).len() > 0 ==> trim_back(s)[0] == s[0],
    decreases s.len(),
{
    if s.len() > 0 && s.last() == ' ' {
        lemma_trim_back_keeps_front(s.drop_last());
    }
}

/// Trimming the back keeps at least everything up to a non-space character.
proof fn lemma_trim_back_len_ge(s: Seq<char>, m: int)
    requires
        0 < m <= s.len(),
        s[m - 1] != ' ',
    ensures
        trim_back(s).len() >= m,
    decreases s.len(),
{
    if s.len() > 0 && s.last() == ' ' {
        lemma_trim_back_len_ge(s.drop_last(), m);
    }
}

/// Text that starts and ends clean keeps its full length as a prefix of any
/// trimmed extension of it.
pub proof fn lemma_trim_concat_keeps_prefix(x: Seq<char>, t: Seq<char>)
    requires
        x.len() > 0,
        x[0] != ' ',
        x[x.len() - 1] != ' ',
    ensures
        trim_spaces(x + t).len() >= x.len(),
        trim_spaces(x + t).take(x.len() as int) == x,
{
    let s = x + t;
    lemma_trim_front_skip(s, 0);
    assert(s.skip(0) =~= s);
    lemma_trim_back_len_ge(s, x.len() as int);
    lemma_trim_back_is_take(s);
    let tb = trim_back(s);
    assert(tb.take(x.len() as int) =~= x);
}

/// Trimming the back always yields a prefix of the text.
proof fn lemma_trim_back_is_take(s: Seq<char>)
    ensures
        trim_back(s).len() <= s.len(),
        trim_back(s) == s.take(trim_back(s).len() as int),
    decreases s.len(),
{
    if s.len() > 0 && s.last() == ' ' {
        lemma_trim_back_is_take(s.drop_last());
        assert(s.drop_last() =~= s.take(s.len() - 1));
        assert(s.take(s.len() - 1).take(trim_back(s).len() as int) =~= s.take(
            trim_back(s).len() as int,
        ));
    } else {
        assert(s.take(s.len() as int) =~= s);
    }
}

/// Returns the text with leading and trailing spaces removed.
pub fn trim(s: &str) -> (r: &str)
    ensures
        r@ == trim_spaces(s@),
{
    let n = s.unicode_len();
    let mut start: usize = 0;
    while start < n && s.get_char(start) == ' '
        invariant
            start <= n,
            n == s@.len(),
            forall|m: int| 0 <= m < start ==> s@[m] == ' ',
        decreases n - start,
    {
        start = start + 1;
    }
    let mut end: usize = n;
    while end > start && s.get_char(end - 1) == ' '
        invariant
            start <= end <= n,
            n == s@.len(),
            forall|m: int| end <= m < n ==> s@[m] == ' ',
        decreases end,
    {
        end = end - 1;
    }
    proof {
        lemma_trim_front_skip(s@, start as int);
        let t = s@.skip(start as int);
        assert(forall|m: int|
            end - start <= m < t.len() ==> t[m] == ' ');
        assert(end - start == 0 || t[end - start - 1] != ' ');
        lemma_trim_back_take(t, end - start);
        assert(t.take(end - start) =~= s@.subrange(start as int, end as int));
    }
    s.substring_char(start, end)
}

/// Appends a single character to a string.
/// Relies on `String::push`: appends exactly the one character.
#[verifier::external_body]
pub(crate) fn push_char(s: &mut String, c: char)
    ensures
        final(s)@ == old(s)@.push(c),
{
    s.push(c);
}

/// Splits text on single spaces into its pieces. The result mirrors
/// [`split_spaces`] applied to the text's characters.
pub fn split_all(s: &str) -> (tokens: Vec<String>)
    ensures
        tokens.deep_view() == split_spaces(s@),
        tokens@.len() >= 1,
{
    let n = s.unicode_len();
    let mut tokens: Vec<String> = Vec::new();
    let mut cur = String::new();
    let mut i: usize = 0;
    proof {
        assert(s@.take(0) =~= Seq::<char>::empty());
        assert(tokens.deep_view().push(cur@) =~= split_spaces(s@.take(0)));
    }
    while i < n
        invariant
            i <= n,
            n == s@.len(),
            tokens.deep_view().push(cur@) == split_spaces(s@.take(i as int)),
        decreases n - i,
    {
        let c = s.get_char(i);
        proof {
            lemma_split_spaces_push(s@.take(i as int), c);
            assert(s@.take(i as int).push(c) =~= s@.take(i + 1));
            lemma_split_spaces_len(s@.take(i as int));
        }
        if c == ' ' {
            tokens.push(cur);
            cur = String::new();
            proof {
                assert(tokens.deep_view().push(cur@) =~= split_spaces(s@.take(i + 1)));
            }
        } else {
            push_char(&mut cur, c);
            proof {
                let prev = split_spaces(s@.take(i as int));
                assert(prev.drop_last() =~= tokens.deep_view());
                assert(tokens.deep_view().push(cur@) =~= prev.update(
                    prev.len() - 1,
                    prev.last().push(c),
                ));
            }
        }
        i = i + 1;
    }
    tokens.push(cur);
    proof {
        assert(s@.take(n as int) =~= s@);
    }
    tokens
}

/// Joins pieces back into one string with a single space between them.
/// The result mirrors [`join_spaced`] applied to the pieces' characters.
pub fn join_all(parts: &Vec<String>) -> (joined: String)
    ensures
        joined@ == join_spaced(parts.deep_view()),
{
    let mut joined = String::new();
    let mut k: usize = 0;
    proof {
        assert(parts.deep_view().take(0) =~= Seq::<Seq<char>>::empty());
    }
    while k < parts.len()
        invariant
            k <= parts@.len(),
            parts.deep_view().len() == parts@.len(),
            joined@ == join_spaced(parts.deep_view().take(k as int)),
        decreases parts@.len() - k,
    {
        if k > 0 {
            push_char(&mut joined, ' ');
        }
        let piece: &String = &parts[k];
        joined.append(piece.as_str());
        proof {
            lemma_join_spaced_push(parts.deep_view().take(k as int), parts.deep_view()[k as int]);
            assert(parts.deep_view().take(k as int).push(parts.deep_view()[k as int])
                =~= parts.deep_view().take(k + 1));
            assert(parts.deep_view()[k as int] == parts@[k as int]@);
        }
        k = k + 1;
    }
    proof {
        assert(parts.deep_view().take(parts.deep_view().len() as int) =~= parts.deep_view());
    }
    joined
}

} // verus!
