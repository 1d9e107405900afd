//! Text as a sequence of characters: searching, trimming and splitting.

use vstd::prelude::*;
use vstd::string::*;

verus! {

/// Position of the first `c` in `s`, or the length of `s` where `c` does not occur.
pub open spec fn first_index(s: Seq<char>, c: char) -> int
    decreases s.len(),
{
    if s.len() == 0 || s[0] == c {
        0
    } else {
        1 + first_index(s.drop_first(), c)
    }
}

/// `i` is where the first `c` of `s` stands, or the length of `s` if there is none.
pub open spec fn is_first_index(s: Seq<char>, c: char, i: int) -> bool {
    &&& 0 <= i <= s.len()
    &&& forall|j: int| 0 <= j < i ==> s[j] != c
    &&& i < s.len() ==> s[i] == c
}

/// `first_index` is within the text, nothing before it is `c`, and `c` stands there
/// unless the text has run out.
pub proof fn lemma_first_index(s: Seq<char>, c: char)
    ensures
        is_first_index(s, c, first_index(s, c)),
    decreases s.len(),
{
    if s.len() == 0 || s[0] == c {
    } else {
        let t = s.drop_first();
        lemma_first_index(t, c);
        let i = first_index(s, c);
        assert forall|j: int| 0 <= j < i implies s[j] != c by {
            if j > 0 {
                assert(t[j - 1] == s[j]);
            }
        }
        if i < s.len() {
            assert(t[i - 1] == s[i]);
        }
    }
}

/// Only one position answers to `is_first_index`.
pub proof fn lemma_first_index_unique(s: Seq<char>, c: char, i: int)
    requires
        is_first_index(s, c, i),
    ensures
        i == first_index(s, c),
{
    lemma_first_index(s, c);
}

/// Position of the first `c` at or after `from`, or `len` where there is none.
fn find_from(s: &str, len: usize, from: usize, c: char) -> (r: usize)
    requires
        len == s@.len(),
        from <= len,
    ensures
        from <= r <= len,
        r - from == first_index(s@.skip(from as int), c),
{
    let mut i: usize = from;
    while i < len && s.get_char(i) != c
        invariant
            len == s@.len(),
            from <= i <= len,
            forall|j: int| from <= j < i ==> s@[j] != c,
        decreases len - i,
    {
        i = i + 1;
    }
    proof {
        let t = s@.skip(from as int);
        assert forall|j: int| 0 <= j < i - from implies t[j] != c by {
            assert(t[j] == s@[from + j]);
        }
        lemma_first_index_unique(t, c, i - from);
    }
    i
}

/// A name that stands at `i` in a list and nowhere before is first found at `i`.
pub proof fn lemma_found_first(names: Seq<Seq<char>>, name: Seq<char>, i: int)
    requires
        0 <= i < names.len(),
        names[i] == name,
        forall|j: int| 0 <= j < i ==> names[j] != name,
    ensures
        names.index_of_first(name) == Some(i),
{
    names.index_of_first_ensures(name);
}

/// A name that stands nowhere in a list is not found in it.
pub proof fn lemma_not_found(names: Seq<Seq<char>>, name: Seq<char>)
    requires
        forall|j: int| 0 <= j < names.len() ==> names[j] != name,
    ensures
        names.index_of_first(name) is None,
        !names.contains(name),
{
    names.index_of_first_ensures(name);
}

/// `s` without the run of `c` that it begins with.
pub open spec fn strip_leading(s: Seq<char>, c: char) -> Seq<char>
    decreases s.len(),
{
    if s.len() > 0 && s[0] == c {
        strip_leading(s.drop_first(), c)
    } else {
        s
    }
}

/// The text that is left of `s` once every leading `c` is taken away.
pub fn trim_leading(s: &str, c: char) -> (r: &str)
    ensures
        r@ == strip_leading(s@, c),
{
    let len = s.unicode_len();
    let mut i: usize = 0;
    proof {
        assert(s@.skip(0) =~= s@);
    }
    while i < len && s.get_char(i) == c
        invariant
            len == s@.len(),
            i <= len,
            strip_leading(s@, c) == strip_leading(s@.skip(i as int), c),
        decreases len - i,
    {
        proof {
            assert(s@.skip(i as int).drop_first() =~= s@.skip(i + 1));
        }
        i = i + 1;
    }
    proof {
        assert(s@.subrange(i as int, len as int) =~= s@.skip(i as int));
    }
    s.substring_char(i, len)
}

/// The pieces of `s` between occurrences of `sep`. There is always at least one
/// piece; a piece is empty where two separators meet or the text begins or ends
/// with one.
pub open spec fn split(s: Seq<char>, sep: char) -> Seq<Seq<char>>
    decreases s.len(),
{
    let i = first_index(s, sep);
    if 0 <= i < s.len() {
        seq![s.take(i)] + split(s.skip(i + 1), sep)
    } else {
        seq![s]
    }
}

/// The pieces put together again, with `sep` between each two of them.
pub open spec fn joined(pieces: Seq<Seq<char>>, sep: char) -> Seq<char>
    decreases pieces.len(),
{
    if pieces.len() == 0 {
        Seq::empty()
    } else if pieces.len() == 1 {
        pieces[0]
    } else {
        pieces[0] + seq![sep] + joined(pieces.drop_first(), sep)
    }
}

/// Splitting loses nothing and cuts at every separator: there is at least one
/// piece, no piece holds a separator, and the pieces joined by the separator
/// are the text again.
pub proof fn lemma_split_joined(s: Seq<char>, sep: char)
    ensures
        split(s, sep).len() >= 1,
        forall|k: int| 0 <= k < split(s, sep).len() ==> !(#[trigger] split(s, sep)[k]).contains(sep),
        joined(split(s, sep), sep) == s,
    decreases s.len(),
{
    lemma_first_index(s, sep);
    let i = first_index(s, sep);
    let pieces = split(s, sep);
    if 0 <= i < s.len() {
        let head = s.take(i);
        let rest = s.skip(i + 1);
        let tail = split(rest, sep);
        lemma_split_joined(rest, sep);
        assert(pieces.drop_first() =~= tail);
        assert(pieces[0] == head);
        assert forall|k: int| 0 <= k < pieces.len() implies !(#[trigger] pieces[k]).contains(sep) by {
            if k == 0 {
                if head.contains(sep) {
                    let j = choose|j: int| 0 <= j < head.len() && head[j] == sep;
                    assert(s[j] == sep);
                }
            } else {
                assert(pieces[k] == tail[k - 1]);
            }
        }
        assert(head + seq![sep] + rest =~= s);
    } else {
        assert(pieces =~= seq![s]);
        if s.contains(sep) {
            let j = choose|j: int| 0 <= j < s.len() && s[j] == sep;
            assert(s[j] == sep);
        }
    }
}

/// A cursor over the pieces of a text, handing them out front to back. The
/// pieces borrow from the text. Finding a piece costs time in proportion to
/// where it stands in the text, so the cursor is meant for short texts.
pub struct Fields<'a> {
    text: &'a str,
    len: usize,
    sep: char,
    next: Option<usize>,
}

impl<'a> Fields<'a> {
    #[verifier::type_invariant]
    spec fn inv(self) -> bool {
        &&& self.len == self.text@.len()
        &&& self.next matches Some(a) ==> a <= self.len
    }

    /// The pieces not handed out yet, in order.
    pub closed spec fn remaining(self) -> Seq<Seq<char>> {
        match self.next {
            Some(a) => split(self.text@.skip(a as int), self.sep),
            None => Seq::empty(),
        }
    }

    /// A cursor in front of the first piece of `text`.
    pub fn new(text: &'a str, sep: char) -> (r: Self)
        ensures
            r.remaining() == split(text@, sep),
    {
        let len = text.unicode_len();
        proof {
            assert(text@.skip(0) =~= text@);
        }
        Fields { text, len, sep, next: Some(0) }
    }

    /// The next piece, if one is left.
    pub fn next_field(&mut self) -> (r: Option<&'a str>)
        ensures
            old(self).remaining().len() == 0 ==> r is None && final(self).remaining()
                == old(self).remaining(),
            old(self).remaining().len() > 0 ==> r is Some && r->0@ == old(self).remaining()[0]
                && final(self).remaining() == old(self).remaining().drop_first(),
    {
        proof {
            use_type_invariant(&*self);
        }
        match self.next {
            None => None,
            Some(a) => {
                let end = find_from(self.text, self.len, a, self.sep);
                let piece = self.text.substring_char(a, end);
                let ghost rest = self.text@.skip(a as int);
                proof {
                    lemma_first_index(rest, self.sep);
                    assert(rest.take(end - a) =~= self.text@.subrange(a as int, end as int));
                }
                if end < self.len {
                    proof {
                        assert(rest.skip(end - a + 1) =~= self.text@.skip(end + 1));
                        let tail = split(self.text@.skip(end + 1), self.sep);
                        assert((seq![rest.take(end - a)] + tail).drop_first() =~= tail);
                    }
                    self.next = Some(end + 1);
                } else {
                    proof {
                        assert(rest.take(end - a) =~= rest);
                        assert(seq![rest].drop_first() =~= Seq::<Seq<char>>::empty());
                    }
                    self.next = None;
                }
                Some(piece)
            },
        }
    }
}

/// `s` without the carriage return that it ends with, if it ends with one.
pub open spec fn strip_cr(s: Seq<char>) -> Seq<char> {
    if s.len() > 0 && s.last() == '\r' {
        s.drop_last()
    } else {
        s
    }
}

/// The lines of a text. A line ends at a line feed, which is not part of it, and
/// neither is a carriage return that stands directly before that line feed. What
/// follows the last line feed is a line of its own unless it is empty.
pub open spec fn lines_of(s: Seq<char>) -> Seq<Seq<char>>
    decreases s.len(),
{
    let i = first_index(s, '\n');
    if s.len() == 0 {
        Seq::empty()
    } else if 0 <= i < s.len() {
        seq![strip_cr(s.take(i))] + lines_of(s.skip(i + 1))
    } else {
        seq![s]
    }
}

/// The lines of `text`, by `str::lines` of the standard library. Its documentation
/// gives the rule that `lines_of` writes down: lines end at `\n` or `\r\n`, the
/// terminator is left out, a final terminator opens no further line, and a carriage
/// return without a line feed behind it stays in its line.
#[verifier::external_body]
pub(crate) fn lines(text: &str) -> (r: Vec<&str>)
    ensures
        r@.len() == lines_of(text@).len(),
        forall|i: int| 0 <= i < r@.len() ==> (#[trigger] r@[i])@ == lines_of(text@)[i],
{
    text.lines().collect()
}

} // verus!
