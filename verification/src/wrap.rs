//! Greedy word-wrapping of a text to a column budget, as the text report
//! uses it: words are accumulated with a trailing separator space until the
//! next word would overflow the budget; the final partial line is always
//! emitted, and an over-long word stands alone on its own line, unsplit.
use vstd::prelude::*;

verus! {

/// The pieces of `s` between space characters, in order; empty pieces kept.
pub open spec fn split_acc(s: Seq<char>, cur: Seq<char>) -> Seq<Seq<char>>
    decreases s.len(),
{
    if s.len() == 0 {
        seq![cur]
    } else if s[0] == ' ' {
        seq![cur] + split_acc(s.drop_first(), Seq::empty())
    } else {
        split_acc(s.drop_first(), cur.push(s[0]))
    }
}

pub open spec fn spec_split_spaces(s: Seq<char>) -> Seq<Seq<char>> {
    split_acc(s, Seq::empty())
}

/// The words of `s`, split on single spaces (consecutive spaces give empty
/// words, as splitting on every space does).
pub fn split_spaces(s: &str) -> (r: Vec<String>)
    ensures
        r.deep_view() == spec_split_spaces(s@),
{
    let len = s.unicode_len();
    let mut out: Vec<String> = Vec::new();
    let mut cur = String::new();
    let mut i: usize = 0;
    proof {
        assert(s@.skip(0) =~= s@);
        assert(out.deep_view() =~= Seq::<Seq<char>>::empty());
        assert(out.deep_view() + split_acc(s@.skip(0), cur@) =~= split_acc(s@, Seq::empty()));
    }
    while i < len
        invariant
            i <= len,
            len == s@.len(),
            spec_split_spaces(s@) == out.deep_view() + split_acc(s@.skip(i as int), cur@),
        decreases len - i,
    {
        let ghost prev_out = out.deep_view();
        let ghost prev_cur = cur@;
        let c = s.get_char(i);
        proof {
            assert(s@.skip(i as int)[0] == s@[i as int]);
            assert(s@.skip(i as int).drop_first() =~= s@.skip(i as int + 1));
        }
        if c == ' ' {
            out.push(cur);
            cur = String::new();
            proof {
                assert(out.deep_view() =~= prev_out.push(prev_cur));
                assert(out.deep_view() + split_acc(s@.skip(i as int + 1), cur@) =~= prev_out
                    + (seq![prev_cur] + split_acc(s@.skip(i as int + 1), Seq::empty())));
            }
        } else {
            let piece = s.substring_char(i, i + 1);
            cur.append(piece);
            proof {
                assert(cur@ =~= prev_cur.push(s@[i as int]));
            }
        }
        i += 1;
    }
    proof {
        assert(s@.skip(len as int) =~= Seq::<char>::empty());
    }
    let ghost prev_out = out.deep_view();
    let ghost prev_cur = cur@;
    out.push(cur);
    proof {
        assert(out.deep_view() =~= prev_out.push(prev_cur));
        assert(prev_out.push(prev_cur) =~= prev_out + seq![prev_cur]);
    }
    out
}

/// Greedy fill of `words` into lines of at most `max` characters, starting
/// from the partial line `cur`; every line carries a trailing space after
/// each word, and the last partial line is always emitted.
pub open spec fn spec_fill(words: Seq<Seq<char>>, cur: Seq<char>, max: int) -> Seq<Seq<char>>
    decreases words.len(),
{
    if words.len() == 0 {
        seq![cur]
    } else if words[0].len() + cur.len() + 1 > max {
        seq![cur] + spec_fill(words.drop_first(), words[0] + seq![' '], max)
    } else {
        spec_fill(words.drop_first(), cur + words[0] + seq![' '], max)
    }
}

/// What `pad_text` returns: the words of `s` greedily filled into lines of
/// at most `max` characters.
pub open spec fn spec_pad_text(s: Seq<char>, max: int) -> Seq<Seq<char>> {
    spec_fill(spec_split_spaces(s), Seq::empty(), max)
}

/// Word-wraps `s` to lines of at most `max_column_size` characters.
pub fn pad_text(s: &str, max_column_size: usize) -> (r: Vec<String>)
    ensures
        r.deep_view() == spec_pad_text(s@, max_column_size as int),
{
    let max = max_column_size;
    let words = split_spaces(s);
    let mut formatted: Vec<String> = Vec::new();
    let mut current = String::new();
    let mut i: usize = 0;
    proof {
        assert(words.deep_view().skip(0) =~= words.deep_view());
        assert(formatted.deep_view() =~= Seq::<Seq<char>>::empty());
        assert(formatted.deep_view() + spec_fill(words.deep_view().skip(0), current@, max as int)
            =~= spec_fill(spec_split_spaces(s@), Seq::empty(), max as int));
    }
    while i < words.len()
        invariant
            i <= words.len(),
            words.deep_view() == spec_split_spaces(s@),
            spec_pad_text(s@, max as int) == formatted.deep_view() + spec_fill(
                words.deep_view().skip(i as int),
                current@,
                max as int,
            ),
        decreases words.len() - i,
    {
        let ghost prev_formatted = formatted.deep_view();
        let ghost prev_cur = current@;
        let ghost rest = words.deep_view().skip(i as int);
        let w = &words[i];
        let wlen = w.as_str().unicode_len();
        let clen = current.as_str().unicode_len();
        let over = if clen > max {
            true
        } else {
            wlen >= max - clen
        };
        proof {
            assert(words.deep_view()[i as int] == words@[i as int].deep_view());
            assert(rest[0] == words.deep_view()[i as int]);
            assert(rest.drop_first() =~= words.deep_view().skip(i as int + 1));
            assert(over == (rest[0].len() + current@.len() + 1 > max as int));
            reveal_strlit(" ");
            assert(" "@ =~= seq![' ']);
        }
        if over {
            formatted.push(current);
            let mut fresh = String::from_str(w.as_str());
            fresh.append(" ");
            current = fresh;
            proof {
                assert(formatted.deep_view() =~= prev_formatted.push(prev_cur));
                assert(current@ =~= rest[0] + seq![' ']);
                assert(formatted.deep_view() + spec_fill(rest.drop_first(), current@, max as int)
                    =~= prev_formatted + (seq![prev_cur] + spec_fill(
                    rest.drop_first(),
                    rest[0] + seq![' '],
                    max as int,
                )));
            }
        } else {
            current.append(w.as_str());
            current.append(" ");
            proof {
                assert(current@ =~= prev_cur + rest[0] + seq![' ']);
            }
        }
        i += 1;
    }
    proof {
        assert(words.deep_view().skip(i as int) =~= Seq::<Seq<char>>::empty());
    }
    let ghost prev_formatted = formatted.deep_view();
    let ghost prev_cur = current@;
    formatted.push(current);
    proof {
        assert(formatted.deep_view() =~= prev_formatted.push(prev_cur));
        assert(prev_formatted.push(prev_cur) =~= prev_formatted + seq![prev_cur]);
    }
    formatted
}

/// A line holding a single word and its trailing separator space: no space
/// anywhere but at the very end.
pub open spec fn lone_word_line(l: Seq<char>) -> bool {
    l.len() >= 1 && l.last() == ' ' && forall|j: int| 0 <= j < l.len() - 1 ==> l[j] != ' '
}

/// A line acceptable under budget `max`: it fits, or it holds one word that
/// alone exceeds the budget.
pub open spec fn line_within(l: Seq<char>, max: int) -> bool {
    l.len() <= max || lone_word_line(l)
}

proof fn lemma_split_words_spaceless(s: Seq<char>, cur: Seq<char>)
    requires
        !cur.contains(' '),
    ensures
        forall|k: int| 0 <= k < split_acc(s, cur).len() ==> !(#[trigger] split_acc(s, cur)[k]).contains(' '),
    decreases s.len(),
{
    if s.len() == 0 {
        assert(split_acc(s, cur) =~= seq![cur]);
        assert(split_acc(s, cur)[0] == cur);
    } else if s[0] == ' ' {
        lemma_split_words_spaceless(s.drop_first(), Seq::empty());
        assert forall|k: int| 0 <= k < split_acc(s, cur).len() implies !(#[trigger] split_acc(
            s,
            cur,
        )[k]).contains(' ') by {
            assert(split_acc(s, cur) == seq![cur] + split_acc(s.drop_first(), Seq::empty()));
            if k > 0 {
                assert(split_acc(s, cur)[k] == split_acc(s.drop_first(), Seq::empty())[k - 1]);
            } else {
                assert(split_acc(s, cur)[0] == cur);
            }
        }
    } else {
        assert(!cur.push(s[0]).contains(' ')) by {
            assert forall|j: int| 0 <= j < cur.push(s[0]).len() implies cur.push(s[0])[j] != ' ' by {
                if j < cur.len() {
                    assert(!cur.contains(' '));
                    assert(cur[j] != ' ');
                }
            }
        }
        lemma_split_words_spaceless(s.drop_first(), cur.push(s[0]));
        assert(split_acc(s, cur) == split_acc(s.drop_first(), cur.push(s[0])));
    }
}

proof fn lemma_fill_widths(words: Seq<Seq<char>>, cur: Seq<char>, max: int)
    requires
        max >= 0,
        line_within(cur, max),
        forall|k: int| 0 <= k < words.len() ==> !(#[trigger] words[k]).contains(' '),
    ensures
        forall|i: int| 0 <= i < spec_fill(words, cur, max).len() ==> line_within(
            #[trigger] spec_fill(words, cur, max)[i],
            max,
        ),
    decreases words.len(),
{
    if words.len() == 0 {
        assert(spec_fill(words, cur, max) =~= seq![cur]);
        assert(spec_fill(words, cur, max)[0] == cur);
    } else {
        let w = words[0];
        assert(forall|k: int| 0 <= k < words.drop_first().len() ==> !(#[trigger] words.drop_first()[k]).contains(' ')) by {
            assert(forall|k: int| 0 <= k < words.drop_first().len() ==> words.drop_first()[k]
                == words[k + 1]);
        }
        if w.len() + cur.len() + 1 > max {
            let fresh = w + seq![' '];
            assert(lone_word_line(fresh)) by {
                assert(fresh.last() == ' ');
                assert forall|j: int| 0 <= j < fresh.len() - 1 implies fresh[j] != ' ' by {
                    assert(fresh[j] == w[j]);
                    assert(!w.contains(' '));
                }
            }
            lemma_fill_widths(words.drop_first(), fresh, max);
            assert forall|i: int| 0 <= i < spec_fill(words, cur, max).len() implies line_within(
                #[trigger] spec_fill(words, cur, max)[i],
                max,
            ) by {
                assert(spec_fill(words, cur, max) == seq![cur] + spec_fill(
                    words.drop_first(),
                    fresh,
                    max,
                ));
                if i > 0 {
                    assert(spec_fill(words, cur, max)[i] == spec_fill(
                        words.drop_first(),
                        fresh,
                        max,
                    )[i - 1]);
                } else {
                    assert(spec_fill(words, cur, max)[0] == cur);
                }
            }
        } else {
            lemma_fill_widths(words.drop_first(), cur + w + seq![' '], max);
            assert(spec_fill(words, cur, max) == spec_fill(
                words.drop_first(),
                cur + w + seq![' '],
                max,
            ));
        }
    }
}

/// Word-wrap law: no produced line exceeds the column budget, except a line
/// holding a single word that alone exceeds it, which is emitted unsplit.
pub proof fn lemma_pad_text_widths(s: Seq<char>, max: int)
    requires
        max >= 0,
    ensures
        forall|i: int| 0 <= i < spec_pad_text(s, max).len() ==> line_within(
            #[trigger] spec_pad_text(s, max)[i],
            max,
        ),
{
    lemma_split_words_spaceless(s, Seq::empty());
    lemma_fill_widths(spec_split_spaces(s), Seq::empty(), max);
}

} // verus!
