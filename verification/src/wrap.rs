//! Greedy word-wrapping of combatant names under a width budget.
//!
//! A name no longer than the budget is returned unchanged. Otherwise it
//! is split on whitespace and the words are re-joined greedily: a word
//! is appended to the current line when line, separating space and word
//! fit the budget together, and otherwise starts a new line. A single
//! word longer than the budget stands alone on its own line, unsplit.

use vstd::prelude::*;

verus! {

/// Whitespace for word splitting.
pub open spec fn is_space(c: char) -> bool {
    c == ' ' || c == '\t' || c == '\n' || c == '\r'
}

/// Word-splitting state after reading a prefix: the completed words and
/// the still-open word run.
pub open spec fn split_words_state(s: Seq<char>) -> (Seq<Seq<char>>, Seq<char>)
    decreases s.len(),
{
    if s.len() == 0 {
        (Seq::<Seq<char>>::empty(), Seq::<char>::empty())
    } else {
        let st = split_words_state(s.drop_last());
        let c = s.last();
        if is_space(c) {
            if st.1.len() == 0 {
                st
            } else {
                (st.0.push(st.1), Seq::<char>::empty())
            }
        } else {
            (st.0, st.1.push(c))
        }
    }
}

/// The whitespace-delimited words of a string, in order.
pub open spec fn words_of(s: Seq<char>) -> Seq<Seq<char>> {
    let st = split_words_state(s);
    if st.1.len() == 0 {
        st.0
    } else {
        st.0.push(st.1)
    }
}

/// Greedy join of the remaining words onto the current line: a word
/// joins the line when line, space and word fit the budget, and
/// otherwise opens a new line.
pub open spec fn greedy_join(words: Seq<Seq<char>>, cur: Seq<char>, max: int) -> Seq<char>
    decreases words.len(),
{
    if words.len() == 0 {
        cur
    } else if cur.len() + 1 + words.first().len() > max {
        cur + seq!['\n'] + greedy_join(words.drop_first(), words.first(), max)
    } else {
        greedy_join(words.drop_first(), cur + seq![' '] + words.first(), max)
    }
}

/// The wrapped form of a name: unchanged when it fits the budget or
/// holds no words, and otherwise its words re-joined greedily with
/// newlines between lines.
pub open spec fn wrap_spec(s: Seq<char>, max: int) -> Seq<char> {
    if s.len() <= max {
        s
    } else {
        let ws = words_of(s);
        if ws.len() == 0 {
            s
        } else {
            greedy_join(ws.drop_first(), ws.first(), max)
        }
    }
}

/// The completed words of the splitting state match the recorded index
/// ranges of the input.
pub open spec fn entries_match(
    state_words: Seq<Seq<char>>,
    entries: Seq<(usize, usize)>,
    s: Seq<char>,
) -> bool {
    &&& state_words.len() == entries.len()
    &&& forall|j: int|
        0 <= j < entries.len() ==> (#[trigger] entries[j]).0 < entries[j].1 <= s.len()
            && state_words[j] == s.subrange(entries[j].0 as int, entries[j].1 as int)
}

/// Wrap a combatant name under a width budget, greedily, splitting only
/// between words.
pub fn wrap_character_name(name: &str, max_line_length: usize) -> (r: String)
    ensures
        r@ == wrap_spec(name@, max_line_length as int),
{
    let n = name.unicode_len();
    if n <= max_line_length {
        return name.to_owned();
    }
    // Split into words, recording each word as an index range.
    let mut entries: Vec<(usize, usize)> = Vec::new();
    let mut cur_start: usize = 0;
    let mut cur_len: usize = 0;
    proof {
        assert(name@.take(0) =~= Seq::<char>::empty());
    }
    for i in 0..n
        invariant
            n == name@.len(),
            entries_match(split_words_state(name@.take(i as int)).0, entries@, name@),
            split_words_state(name@.take(i as int)).1 == (if cur_len == 0 {
                Seq::<char>::empty()
            } else {
                name@.subrange(cur_start as int, cur_start + cur_len)
            }),
            cur_len > 0 ==> cur_start + cur_len == i,
    {
        proof {
            assert(name@.take(i + 1).drop_last() =~= name@.take(i as int));
            assert(name@.take(i + 1).last() == name@[i as int]);
        }
        let ghost st = split_words_state(name@.take(i as int));
        let c = name.get_char(i);
        let space = c == ' ' || c == '\t' || c == '\n' || c == '\r';
        if space {
            if cur_len > 0 {
                let ghost prev = entries@;
                entries.push((cur_start, cur_start + cur_len));
                cur_len = 0;
                proof {
                    let st2 = split_words_state(name@.take(i + 1));
                    assert(st2.0 == st.0.push(st.1));
                    assert forall|j: int| 0 <= j < entries@.len() implies (#[trigger] entries@[j]).0
                        < entries@[j].1 <= name@.len() && st2.0[j] == name@.subrange(
                        entries@[j].0 as int,
                        entries@[j].1 as int,
                    ) by {
                        if j < prev.len() {
                            assert(entries@[j] == prev[j]);
                            assert(st2.0[j] == st.0[j]);
                        }
                    }
                }
            }
        } else {
            if cur_len == 0 {
                cur_start = i;
            }
            cur_len = cur_len + 1;
            proof {
                assert(name@.subrange(cur_start as int, cur_start + cur_len) =~= name@.subrange(
                    cur_start as int,
                    cur_start + cur_len - 1,
                ).push(name@[i as int]));
                if cur_len == 1 {
                    assert(name@.subrange(cur_start as int, cur_start + 1) =~= Seq::<
                        char,
                    >::empty().push(name@[i as int]));
                }
            }
        }
    }
    proof {
        assert(name@.take(n as int) =~= name@);
    }
    let ghost st = split_words_state(name@);
    if cur_len > 0 {
        let ghost prev = entries@;
        entries.push((cur_start, cur_start + cur_len));
        proof {
            assert(words_of(name@) == st.0.push(st.1));
            assert forall|j: int| 0 <= j < entries@.len() implies (#[trigger] entries@[j]).0
                < entries@[j].1 <= name@.len() && words_of(name@)[j] == name@.subrange(
                entries@[j].0 as int,
                entries@[j].1 as int,
            ) by {
                if j < prev.len() {
                    assert(entries@[j] == prev[j]);
                    assert(st.0.push(st.1)[j] == st.0[j]);
                }
            }
        }
    }
    let ghost ws = words_of(name@);
    proof {
        assert(entries_match(ws, entries@, name@));
    }
    if entries.len() == 0 {
        return name.to_owned();
    }
    // Join the words greedily under the budget.
    let (s0, e0) = entries[0];
    proof {
        assert(ws[0] == name@.subrange(entries@[0].0 as int, entries@[0].1 as int));
    }
    let mut cur: String = String::from_str(name.substring_char(s0, e0));
    let mut out: String = String::new();
    let m = entries.len();
    proof {
        assert(ws.drop_first() =~= ws.skip(1));
        assert(out@ + greedy_join(ws.skip(1), cur@, max_line_length as int) =~= greedy_join(
            ws.skip(1),
            cur@,
            max_line_length as int,
        ));
    }
    for k in 1..m
        invariant
            n == name@.len(),
            m == entries@.len(),
            m >= 1,
            entries_match(ws, entries@, name@),
            ws == words_of(name@),
            wrap_spec(name@, max_line_length as int) == out@ + greedy_join(
                ws.skip(k as int),
                cur@,
                max_line_length as int,
            ),
    {
        proof {
            reveal_strlit(" ");
            reveal_strlit("\n");
            assert(ws.skip(k as int).first() == ws[k as int]);
            assert(ws.skip(k as int).drop_first() =~= ws.skip(k + 1));
            assert(ws[k as int] == name@.subrange(entries@[k as int].0 as int, entries@[k as int].1 as int));
        }
        let (sk, ek) = entries[k];
        let wlen = ek - sk;
        let cl = cur.as_str().unicode_len();
        let ghost prev_out = out@;
        let ghost prev_cur = cur@;
        if (cl as u128) + 1 + (wlen as u128) > (max_line_length as u128) {
            proof {
                assert(greedy_join(ws.skip(k as int), prev_cur, max_line_length as int) == prev_cur
                    + seq!['\n'] + greedy_join(ws.skip(k + 1), ws[k as int], max_line_length as int));
            }
            out.append(cur.as_str());
            out.append("\n");
            cur = String::from_str(name.substring_char(sk, ek));
            proof {
                assert(prev_out + (prev_cur + seq!['\n'] + greedy_join(
                    ws.skip(k + 1),
                    ws[k as int],
                    max_line_length as int,
                )) =~= (prev_out + prev_cur + seq!['\n']) + greedy_join(
                    ws.skip(k + 1),
                    ws[k as int],
                    max_line_length as int,
                ));
                assert(out@ =~= prev_out + prev_cur + seq!['\n']);
            }
        } else {
            proof {
                assert(greedy_join(ws.skip(k as int), prev_cur, max_line_length as int)
                    == greedy_join(
                    ws.skip(k + 1),
                    prev_cur + seq![' '] + ws[k as int],
                    max_line_length as int,
                ));
            }
            cur.append(" ");
            cur.append(name.substring_char(sk, ek));
            proof {
                assert(cur@ =~= prev_cur + seq![' '] + ws[k as int]);
            }
        }
    }
    proof {
        assert(ws.skip(m as int) =~= Seq::<Seq<char>>::empty());
    }
    out.append(cur.as_str());
    out
}

} // verus!
