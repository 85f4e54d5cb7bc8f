//! Splitting a line into words at Unicode white space.
use vstd::prelude::*;

verus! {

/// Whether `c` has the Unicode property `White_Space`.
pub open spec fn is_space(c: char) -> bool {
    let n = c as u32;
    ||| 0x09 <= n <= 0x0d
    ||| n == 0x20
    ||| n == 0x85
    ||| n == 0xa0
    ||| n == 0x1680
    ||| 0x2000 <= n <= 0x200a
    ||| n == 0x2028
    ||| n == 0x2029
    ||| n == 0x202f
    ||| n == 0x205f
    ||| n == 0x3000
}

/// Whether `s` holds nothing but white space.
pub open spec fn blank(s: Seq<char>) -> bool {
    forall|i: int| 0 <= i < s.len() ==> is_space(#[trigger] s[i])
}

/// Whether `w` is one word: not empty, and without white space.
pub open spec fn is_word(w: Seq<char>) -> bool {
    &&& w.len() > 0
    &&& forall|i: int| 0 <= i < w.len() ==> !is_space(#[trigger] w[i])
}

/// How many characters come before the first white space of `s`.
pub open spec fn word_len(s: Seq<char>) -> nat
    decreases s.len(),
{
    if s.len() == 0 || is_space(s[0]) {
        0
    } else {
        1 + word_len(s.drop_first())
    }
}

/// The words of `s`, in order: its maximal runs of characters that are not white space.
pub open spec fn words(s: Seq<char>) -> Seq<Seq<char>>
    decreases s.len(),
{
    if s.len() == 0 {
        Seq::empty()
    } else if is_space(s[0]) {
        words(s.drop_first())
    } else {
        proof {
            lemma_word_len(s);
        }
        seq![s.take(word_len(s) as int)] + words(s.skip(word_len(s) as int))
    }
}

/// What keeps a character of a line: not being white space.
pub open spec fn visible() -> spec_fn(char) -> bool {
    |c: char| !is_space(c)
}

/// The characters of `parts`, one part after the other.
pub open spec fn joined(parts: Seq<Seq<char>>) -> Seq<char>
    decreases parts.len(),
{
    if parts.len() == 0 {
        Seq::empty()
    } else {
        parts[0] + joined(parts.drop_first())
    }
}

/// A line that holds the words of `list` in order, with a blank before each.
pub open spec fn typed_apart(list: Seq<Seq<char>>) -> Seq<char>
    decreases list.len(),
{
    if list.len() == 0 {
        Seq::empty()
    } else {
        typed_apart(list.drop_last()).push(' ') + list.last()
    }
}

/// What `word_len` measures: a run without white space that ends at white space or at the end.
pub proof fn lemma_word_len(s: Seq<char>)
    ensures
        word_len(s) <= s.len(),
        forall|i: int| 0 <= i < word_len(s) ==> !is_space(#[trigger] s[i]),
        word_len(s) < s.len() ==> is_space(s[word_len(s) as int]),
    decreases s.len(),
{
    if s.len() > 0 && !is_space(s[0]) {
        let rest = s.drop_first();
        lemma_word_len(rest);
        assert forall|i: int| 0 <= i < word_len(s) implies !is_space(#[trigger] s[i]) by {
            if i > 0 {
                assert(s[i] == rest[i - 1]);
            }
        }
    }
}

/// A run of characters up to the first white space is what `word_len` measures.
proof fn lemma_word_len_is(s: Seq<char>, n: nat)
    requires
        n <= s.len(),
        forall|i: int| 0 <= i < n ==> !is_space(#[trigger] s[i]),
        n == s.len() || is_space(s[n as int]),
    ensures
        word_len(s) == n,
{
    lemma_word_len(s);
    let m = word_len(s);
    if m < n {
        assert(is_space(s[m as int]));
    }
    if n < m {
        assert(!is_space(s[n as int]));
    }
}

/// Every word is non-empty and holds no white space.
pub proof fn law_words_hold_no_space(s: Seq<char>)
    ensures
        forall|i: int| 0 <= i < words(s).len() ==> is_word(#[trigger] words(s)[i]),
    decreases s.len(),
{
    lemma_word_len(s);
    if s.len() > 0 {
        if is_space(s[0]) {
            law_words_hold_no_space(s.drop_first());
            assert(words(s) == words(s.drop_first()));
        } else {
            let n = word_len(s) as int;
            law_words_hold_no_space(s.skip(n));
            assert forall|i: int| 0 <= i < words(s).len() implies is_word(#[trigger] words(s)[i]) by {
                if i > 0 {
                    assert(words(s)[i] == words(s.skip(n))[i - 1]);
                }
            }
        }
    } else {
        assert(words(s).len() == 0);
    }
}

/// The words of a line, put together, are the line without its white space: no character is lost,
/// added or moved.
pub proof fn law_words_keep_every_character(s: Seq<char>)
    ensures
        joined(words(s)) == s.filter(visible()),
    decreases s.len(),
{
    reveal(Seq::filter);
    lemma_word_len(s);
    if s.len() > 0 {
        let n: int = if is_space(s[0]) {
            1
        } else {
            word_len(s) as int
        };
        assert(s.take(n) + s.skip(n) =~= s);
        Seq::filter_distributes_over_add(s.take(n), s.skip(n), visible());
        if is_space(s[0]) {
            assert(s.skip(1) =~= s.drop_first());
            assert(s.take(1).filter(visible()) =~= Seq::empty()) by {
                reveal_with_fuel(Seq::filter, 2);
            }
            assert(s.filter(visible()) =~= s.skip(1).filter(visible()));
        } else {
            lemma_all_visible(s.take(n));
            assert(words(s).drop_first() =~= words(s.skip(n)));
        }
        law_words_keep_every_character(s.skip(n));
    }
}

proof fn lemma_all_visible(s: Seq<char>)
    requires
        forall|i: int| 0 <= i < s.len() ==> !is_space(#[trigger] s[i]),
    ensures
        s.filter(visible()) == s,
    decreases s.len(),
{
    reveal(Seq::filter);
    if s.len() > 0 {
        lemma_all_visible(s.drop_last());
        assert(s =~= s.drop_last().push(s.last()));
    }
}

/// A line has no words exactly when it is blank.
pub proof fn law_only_a_blank_line_has_no_words(s: Seq<char>)
    ensures
        words(s).len() == 0 <==> blank(s),
    decreases s.len(),
{
    if s.len() > 0 && is_space(s[0]) {
        law_only_a_blank_line_has_no_words(s.drop_first());
        assert forall|i: int| blank(s.drop_first()) && 0 <= i < s.len() implies is_space(
            #[trigger] s[i],
        ) by {
            if i > 0 {
                assert(s[i] == s.drop_first()[i - 1]);
            }
        }
        assert forall|i: int| blank(s) && 0 <= i < s.len() - 1 implies is_space(
            #[trigger] s.drop_first()[i],
        ) by {
            assert(s.drop_first()[i] == s[i + 1]);
        }
    }
}

/// A line that is not empty and holds no white space is one word, however long it is: the line.
pub proof fn law_a_line_without_space_is_one_word(s: Seq<char>)
    requires
        s.len() > 0,
        forall|i: int| 0 <= i < s.len() ==> !is_space(#[trigger] s[i]),
    ensures
        words(s) == seq![s],
{
    lemma_word_len_is(s, s.len());
    assert(s.take(s.len() as int) =~= s);
    assert(words(s.skip(s.len() as int)) =~= Seq::<Seq<char>>::empty());
    assert(words(s) =~= seq![s]);
}

/// White space parts the words before it from the words behind it, and does nothing else.
pub proof fn law_space_parts_words(a: Seq<char>, space: char, b: Seq<char>)
    requires
        is_space(space),
    ensures
        words(a.push(space) + b) == words(a) + words(b),
    decreases a.len(),
{
    let s = a.push(space) + b;
    if a.len() == 0 {
        assert(s.drop_first() =~= b);
        assert(words(a) + words(b) =~= words(b));
    } else if is_space(a[0]) {
        assert(s.drop_first() =~= a.drop_first().push(space) + b);
        law_space_parts_words(a.drop_first(), space, b);
    } else {
        let n = word_len(a);
        lemma_word_len(a);
        assert(n > 0);
        assert forall|i: int| 0 <= i < n implies !is_space(#[trigger] s[i]) by {
            assert(s[i] == a[i]);
        }
        assert(s[n as int] == if n < a.len() {
            a[n as int]
        } else {
            space
        });
        lemma_word_len_is(s, n);
        assert(s.take(n as int) =~= a.take(n as int));
        assert(s.skip(n as int) =~= a.skip(n as int).push(space) + b);
        law_space_parts_words(a.skip(n as int), space, b);
        assert(words(s) =~= words(a) + words(b));
    }
}

/// White space around a line makes no difference to its words.
pub proof fn law_space_around_a_line_is_ignored(before: char, s: Seq<char>, after: char)
    requires
        is_space(before),
        is_space(after),
    ensures
        words(seq![before] + s) == words(s),
        words(s.push(after)) == words(s),
{
    law_space_parts_words(Seq::empty(), before, s);
    assert(Seq::empty().push(before) + s =~= seq![before] + s);
    assert(words(Seq::<char>::empty()) + words(s) =~= words(s));
    law_space_parts_words(s, after, Seq::empty());
    assert(s.push(after) + Seq::<char>::empty() =~= s.push(after));
    assert(words(s) + words(Seq::<char>::empty()) =~= words(s));
}

/// The words of a list of words typed with single blanks between them are those words again,
/// however many they are and however long each is.
pub proof fn law_words_typed_apart_read_back(list: Seq<Seq<char>>)
    requires
        forall|i: int| 0 <= i < list.len() ==> is_word(#[trigger] list[i]),
    ensures
        words(typed_apart(list)) == list,
    decreases list.len(),
{
    if list.len() == 0 {
        assert(words(typed_apart(list)) =~= list);
    } else {
        let earlier = list.drop_last();
        assert forall|i: int| 0 <= i < earlier.len() implies is_word(#[trigger] earlier[i]) by {
            assert(earlier[i] == list[i]);
        }
        law_words_typed_apart_read_back(earlier);
        assert(is_word(list[list.len() - 1]));
        law_a_line_without_space_is_one_word(list.last());
        law_space_parts_words(typed_apart(earlier), ' ', list.last());
        assert(earlier + seq![list.last()] =~= list);
    }
}

/// Whether `c` is white space.
pub fn is_whitespace(c: char) -> (space: bool)
    ensures
        space == is_space(c),
{
    let n: u32 = c as u32;
    (0x09 <= n && n <= 0x0d) || n == 0x20 || n == 0x85 || n == 0xa0 || n == 0x1680 || (0x2000 <= n
        && n <= 0x200a) || n == 0x2028 || n == 0x2029 || n == 0x202f || n == 0x205f || n == 0x3000
}

/// The characters of `s`, for access by position.
pub fn chars_of(s: &str) -> (chars: Vec<char>)
    ensures
        chars@ == s@,
{
    let mut chars: Vec<char> = Vec::new();
    for c in it: s.chars()
        invariant
            chars@ == it.seq().take(it.index() as int),
            it.seq() == s@,
    {
        chars.push(c);
    }
    chars
}

/// The words of a line.
pub fn split_whitespace(s: &str) -> (tokens: Vec<String>)
    ensures
        tokens.deep_view() == words(s@),
{
    let chars = chars_of(s);
    let mut tokens: Vec<String> = Vec::new();
    let mut i: usize = 0;
    assert(s@.skip(0) =~= s@);
    while i < chars.len()
        invariant
            i <= chars.len(),
            chars@ == s@,
            words(s@) == tokens.deep_view() + words(s@.skip(i as int)),
        decreases chars.len() - i,
    {
        let ghost rest = s@.skip(i as int);
        if is_whitespace(chars[i]) {
            assert(rest.drop_first() =~= s@.skip(i + 1));
            i = i + 1;
        } else {
            let mut j: usize = i + 1;
            while j < chars.len() && !is_whitespace(chars[j])
                invariant
                    i < j <= chars.len(),
                    chars@ == s@,
                    forall|k: int| i <= k < j ==> !is_space(#[trigger] s@[k]),
                decreases chars.len() - j,
            {
                j = j + 1;
            }
            let token = s.substring_char(i, j).to_owned();
            proof {
                assert forall|k: int| 0 <= k < j - i implies !is_space(#[trigger] rest[k]) by {
                    assert(rest[k] == s@[i + k]);
                }
                lemma_word_len_is(rest, (j - i) as nat);
                assert(rest.take(j - i) =~= s@.subrange(i as int, j as int));
                assert(rest.skip(j - i) =~= s@.skip(j as int));
                assert(tokens.deep_view().push(token@) + words(s@.skip(j as int))
                    =~= tokens.deep_view() + (seq![token@] + words(s@.skip(j as int))));
            }
            let ghost before = tokens.deep_view();
            tokens.push(token);
            assert(tokens.deep_view() =~= before.push(token@));
            i = j;
        }
    }
    assert(tokens.deep_view() + words(s@.skip(i as int)) =~= tokens.deep_view());
    tokens
}

/// Whether a line holds nothing but white space.
pub fn is_blank(s: &str) -> (is: bool)
    ensures
        is == blank(s@),
{
    let chars = chars_of(s);
    let mut i: usize = 0;
    while i < chars.len()
        invariant
            i <= chars.len(),
            chars@ == s@,
            forall|k: int| 0 <= k < i ==> is_space(#[trigger] s@[k]),
        decreases chars.len() - i,
    {
        if !is_whitespace(chars[i]) {
            assert(!is_space(s@[i as int]));
            return false;
        }
        i = i + 1;
    }
    true
}

} // verus!
