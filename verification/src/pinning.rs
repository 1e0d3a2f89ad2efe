//! Values that keep a view into their own text. Each holds its text together
//! with what is derived from it, so it may move freely.
use vstd::prelude::*;

verus! {

/// A text together with a second handle on the same text.
#[derive(Debug)]
pub struct SelfReferential {
    value: String,
}

impl SelfReferential {
    /// The text held.
    pub closed spec fn text(&self) -> Seq<char> {
        self.value@
    }

    /// Holds a copy of `text`.
    pub fn new(text: &str) -> (res: Self)
        ensures
            res.text() == text@,
    {
        SelfReferential { value: text.to_owned() }
    }

    /// The text held.
    pub fn value(&self) -> (res: &str)
        ensures
            res@ == self.text(),
    {
        self.value.as_str()
    }

    /// The text held, through the second handle; always the same as `value`.
    pub fn value_via_self_ptr(&self) -> (res: &str)
        ensures
            res@ == self.text(),
    {
        self.value.as_str()
    }
}

/// Whether `s` holds no space.
pub open spec fn space_free(s: Seq<char>) -> bool {
    forall|j: int| 0 <= j < s.len() ==> s[j] != ' '
}

/// Whether `(first, second)` is `s` split on its first space: the text before
/// it and the text after it, or all of `s` and nothing when `s` has no space.
pub open spec fn is_split_on_first_space(s: Seq<char>, first: Seq<char>, second: Seq<char>) -> bool {
    ||| (space_free(s) && first == s && second == Seq::<char>::empty())
    ||| exists|i: int|
        0 <= i < s.len() && s[i] == ' ' && space_free(s.take(i)) && first == s.take(i) && second
            == s.skip(i + 1)
}

/// A text together with its first word and the rest after the first space.
#[derive(Debug)]
pub struct SplitView {
    value: String,
    first_word: String,
    second_word: String,
}

impl SplitView {
    /// The two words are always the text split on its first space.
    #[verifier::type_invariant]
    closed spec fn words_split_text(&self) -> bool {
        is_split_on_first_space(self.value@, self.first_word@, self.second_word@)
    }

    /// The text held.
    pub closed spec fn text(&self) -> Seq<char> {
        self.value@
    }

    /// The text before the first space.
    pub closed spec fn first_view(&self) -> Seq<char> {
        self.first_word@
    }

    /// The text after the first space.
    pub closed spec fn second_view(&self) -> Seq<char> {
        self.second_word@
    }

    /// Splits `text` on its first space; without a space the whole text is
    /// the first word and the second is empty.
    pub fn new(text: &str) -> (res: Self)
        ensures
            res.text() == text@,
            is_split_on_first_space(text@, res.first_view(), res.second_view()),
    {
        let n = text.unicode_len();
        let mut i: usize = 0;
        while i < n
            invariant
                n == text@.len(),
                i <= n,
                space_free(text@.take(i as int)),
            decreases n - i,
        {
            if text.get_char(i) == ' ' {
                let first = text.substring_char(0, i).to_owned();
                let second = text.substring_char(i + 1, n).to_owned();
                assert(first@ =~= text@.take(i as int));
                assert(second@ =~= text@.skip(i + 1));
                return SplitView { value: text.to_owned(), first_word: first, second_word: second };
            }
            assert(space_free(text@.take(i + 1))) by {
                assert forall|j: int| 0 <= j < i + 1 implies #[trigger] text@.take(i + 1)[j] != ' ' by {
                    if j < i {
                        assert(text@.take(i + 1)[j] == text@.take(i as int)[j]);
                    }
                }
            }
            i = i + 1;
        }
        assert(text@.take(n as int) =~= text@);
        SplitView { value: text.to_owned(), first_word: text.to_owned(), second_word: String::new() }
    }

    /// The text held.
    pub fn value(&self) -> (res: &str)
        ensures
            res@ == self.text(),
    {
        self.value.as_str()
    }

    /// The text before the first space.
    pub fn first_word(&self) -> (res: &str)
        ensures
            res@ == self.first_view(),
            is_split_on_first_space(self.text(), res@, self.second_view()),
    {
        proof {
            use_type_invariant(self);
        }
        self.first_word.as_str()
    }

    /// The text after the first space.
    pub fn second_word(&self) -> (res: &str)
        ensures
            res@ == self.second_view(),
            is_split_on_first_space(self.text(), self.first_view(), res@),
    {
        proof {
            use_type_invariant(self);
        }
        self.second_word.as_str()
    }
}

/// Splitting on the first space loses nothing: the first word holds no
/// space; without a space in the text the first word is the whole text and the
/// second is empty; otherwise the text is the first word, a space and the
/// second word.
pub proof fn lemma_split_rebuilds_text(s: Seq<char>, first: Seq<char>, second: Seq<char>)
    requires
        is_split_on_first_space(s, first, second),
    ensures
        space_free(first),
        space_free(s) ==> first == s && second.len() == 0,
        !space_free(s) ==> s == first + seq![' '] + second,
{
    if exists|i: int|
        0 <= i < s.len() && s[i] == ' ' && space_free(s.take(i)) && first == s.take(i) && second
            == s.skip(i + 1) {
        let i = choose|i: int|
            0 <= i < s.len() && s[i] == ' ' && space_free(s.take(i)) && first == s.take(i)
                && second == s.skip(i + 1);
        assert(!space_free(s));
        assert(s =~= s.take(i) + seq![' '] + s.skip(i + 1));
    }
}

} // verus!
