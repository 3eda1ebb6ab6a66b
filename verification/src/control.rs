//! The command that stops and starts brokers: how it is called, and what is
//! said where it fails.

use vstd::prelude::*;
use vstd::string::*;

use crate::text;
use crate::text::line;

verus! {

/// Whether a character separates words: it has Unicode's `White_Space`
/// property.
pub open spec fn is_space(c: char) -> bool {
    ||| '\u{9}' <= c <= '\u{d}'
    ||| c == ' '
    ||| c == '\u{85}'
    ||| c == '\u{a0}'
    ||| c == '\u{1680}'
    ||| '\u{2000}' <= c <= '\u{200a}'
    ||| c == '\u{2028}'
    ||| c == '\u{2029}'
    ||| c == '\u{202f}'
    ||| c == '\u{205f}'
    ||| c == '\u{3000}'
}

fn separates(c: char) -> (r: bool)
    ensures
        r == is_space(c),
{
    ('\u{9}' <= c && c <= '\u{d}') || c == ' ' || c == '\u{85}' || c == '\u{a0}' || c == '\u{1680}'
        || ('\u{2000}' <= c && c <= '\u{200a}') || c == '\u{2028}' || c == '\u{2029}'
        || c == '\u{202f}' || c == '\u{205f}' || c == '\u{3000}'
}

/// The words of a text, and the one that was not over at its end.
pub open spec fn split(s: Seq<char>) -> (Seq<Seq<char>>, Seq<char>)
    decreases s.len(),
{
    if s.len() == 0 {
        (Seq::empty(), Seq::empty())
    } else {
        let (done, current) = split(s.drop_last());
        if !is_space(s.last()) {
            (done, current.push(s.last()))
        } else if current.len() > 0 {
            (done.push(current), Seq::empty())
        } else {
            (done, current)
        }
    }
}

/// The words of a text, none of them empty.
pub open spec fn words(s: Seq<char>) -> Seq<Seq<char>> {
    let (done, current) = split(s);
    if current.len() > 0 {
        done.push(current)
    } else {
        done
    }
}

fn split_words(s: &str) -> (r: Vec<String>)
    ensures
        text::views(r@) == words(s@),
{
    let n: usize = s.unicode_len();
    let mut done: Vec<String> = Vec::new();
    let mut from: usize = 0;
    let mut i: usize = 0;
    assert(s@.take(0) =~= Seq::empty());
    assert(text::views(done@) =~= Seq::empty());
    assert(s@.subrange(0, 0) =~= Seq::empty());
    while i < n
        invariant
            n == s@.len(),
            from <= i <= n,
            split(s@.take(i as int)) == (text::views(done@), s@.subrange(from as int, i as int)),
        decreases n - i,
    {
        let ghost front = s@.take(i + 1);
        assert(front.drop_last() =~= s@.take(i as int));
        assert(front.last() == s@[i as int]);
        let ghost current = s@.subrange(from as int, i as int);
        if separates(s.get_char(i)) {
            if from < i {
                let word = String::from_str(s.substring_char(from, i));
                let ghost kept = done@;
                done.push(word);
                assert(text::views(done@) =~= text::views(kept).push(word@));
            }
            from = i + 1;
            assert(s@.subrange(from as int, i + 1) =~= Seq::empty());
            assert(from == i + 1 && current.len() == 0 ==> current =~= Seq::empty());
        } else {
            assert(s@.subrange(from as int, i + 1) =~= current.push(s@[i as int]));
        }
        i = i + 1;
    }
    assert(s@.take(i as int) =~= s@);
    if from < n {
        let word = String::from_str(s.substring_char(from, n));
        let ghost kept = done@;
        done.push(word);
        assert(text::views(done@) =~= text::views(kept).push(word@));
    }
    done
}

/// A text without the blanks it begins with.
pub open spec fn trimmed_front(s: Seq<char>) -> Seq<char>
    decreases s.len(),
{
    if s.len() > 0 && is_space(s[0]) {
        trimmed_front(s.skip(1))
    } else {
        s
    }
}

/// A text without the blanks it ends in.
pub open spec fn trimmed_back(s: Seq<char>) -> Seq<char>
    decreases s.len(),
{
    if s.len() > 0 && is_space(s.last()) {
        trimmed_back(s.drop_last())
    } else {
        s
    }
}

fn trim(s: &str) -> (r: String)
    ensures
        r@ == trimmed_back(trimmed_front(s@)),
{
    let n: usize = s.unicode_len();
    let mut from: usize = 0;
    assert(s@.skip(0) =~= s@);
    while from < n && separates(s.get_char(from))
        invariant
            from <= n,
            n == s@.len(),
            trimmed_front(s@) == trimmed_front(s@.skip(from as int)),
        decreases n - from,
    {
        assert(s@.skip(from as int).skip(1) =~= s@.skip(from + 1));
        from = from + 1;
    }
    let ghost rest = s@.skip(from as int);
    assert(trimmed_front(s@) == rest);
    let mut upto: usize = n;
    assert(s@.subrange(from as int, n as int) =~= rest);
    while upto > from && separates(s.get_char(upto - 1))
        invariant
            from <= upto <= n,
            n == s@.len(),
            trimmed_back(rest) == trimmed_back(s@.subrange(from as int, upto as int)),
        decreases upto,
    {
        assert(s@.subrange(from as int, upto as int).drop_last() =~= s@.subrange(
            from as int,
            upto - 1,
        ));
        upto = upto - 1;
    }
    String::from_str(s.substring_char(from, upto))
}

/// What a control command is asked to do.
#[derive(Debug, Clone, Copy, PartialEq, Eq, Structural)]
pub enum Verb {
    Stop,
    Start,
}

impl Verb {
    pub open spec fn spec_text(self) -> Seq<char> {
        match self {
            Verb::Stop => "stop"@,
            Verb::Start => "start"@,
        }
    }

    /// The verb as the command is given it.
    pub fn text(self) -> (r: &'static str)
        ensures
            r@ == self.spec_text(),
    {
        match self {
            Verb::Stop => "stop",
            Verb::Start => "start",
        }
    }
}

/// The words a broker is stopped or started with: those of the command, then
/// the verb, the node id and the address.
pub fn control_words(command: &str, verb: Verb, node_id: i32, addr: &str) -> (r: Result<
    Vec<String>,
    String,
>)
    ensures
        match r {
            Ok(all) => words(command@).len() > 0 && text::views(all@) == words(command@) + seq![
                verb.spec_text(),
                text::dec(node_id as int),
                addr@,
            ],
            Err(why) => words(command@).len() == 0 && why@ == "--cluster-control is empty"@,
        },
{
    let mut all = split_words(command);
    if all.len() == 0 {
        return Err(String::from_str("--cluster-control is empty"));
    }
    let ghost given = text::views(all@);
    all.push(String::from_str(verb.text()));
    all.push(line("").num(node_id as i64).done());
    all.push(String::from_str(addr));
    proof {
        reveal_strlit("");
        assert(""@ + text::dec(node_id as int) =~= text::dec(node_id as int));
        assert(text::views(all@) =~= given + seq![
            verb.spec_text(),
            text::dec(node_id as int),
            addr@,
        ]);
    }
    Ok(all)
}

/// What is said of a command that could not be run.
pub fn not_run(command: &str, why: &str) -> (r: String)
    ensures
        r@ == "running "@ + text::quoted(command@) + ": "@ + why@,
{
    line("running ").quote(command).lit(": ").lit(why).done()
}

/// What is said of a command that ended badly: how it ended, and what it
/// wrote to its error stream.
pub fn ended_badly(
    command: &str,
    verb: Verb,
    node_id: i32,
    status: &str,
    stderr: &[u8],
) -> (r: String)
    ensures
        r@ == ""@ + text::quoted(command@) + " "@ + verb.spec_text() + " "@ + text::dec(
            node_id as int,
        ) + " exited "@ + status@ + ": "@ + trimmed_back(trimmed_front(text::utf8_lossy(stderr@))),
{
    let said = text::lossy_text(stderr);
    line("").quote(command).lit(" ").lit(verb.text()).lit(" ").num(node_id as i64).lit(
        " exited ",
    ).lit(status).lit(": ").lit(trim(said.as_str()).as_str()).done()
}

/// A word: some characters, none of them a blank.
pub open spec fn is_word(w: Seq<char>) -> bool {
    w.len() > 0 && forall|i: int| 0 <= i < w.len() ==> !is_space(#[trigger] w[i])
}

/// What a text is split into are words.
pub proof fn law_words_hold_no_blanks(s: Seq<char>)
    ensures
        forall|i: int| 0 <= i < words(s).len() ==> is_word(#[trigger] words(s)[i]),
{
    lemma_split(s);
    let (done, current) = split(s);
    assert forall|i: int| 0 <= i < words(s).len() implies is_word(#[trigger] words(s)[i]) by {
        if i < done.len() {
            assert(words(s)[i] == done[i]);
        }
    }
}

proof fn lemma_split(s: Seq<char>)
    ensures
        forall|i: int| 0 <= i < split(s).0.len() ==> is_word(#[trigger] split(s).0[i]),
        split(s).1.len() > 0 ==> is_word(split(s).1),
    decreases s.len(),
{
    if s.len() > 0 {
        lemma_split(s.drop_last());
        let (done, current) = split(s.drop_last());
        let all = split(s).0;
        assert forall|i: int| 0 <= i < all.len() implies is_word(#[trigger] all[i]) by {
            if i < done.len() {
                assert(all[i] == done[i]);
            }
        }
        if !is_space(s.last()) {
            let longer = current.push(s.last());
            assert forall|i: int| 0 <= i < longer.len() implies !is_space(#[trigger] longer[i]) by {
                if i < current.len() {
                    assert(longer[i] == current[i]);
                }
            }
        }
    }
}

/// A blank separates: the words of what stands before it and of what stands
/// after it are the words of the whole.
pub proof fn law_blanks_separate_words(before: Seq<char>, blank: char, after: Seq<char>)
    requires
        is_space(blank),
    ensures
        words(before + seq![blank] + after) == words(before) + words(after),
    decreases after.len(),
{
    let whole = before + seq![blank] + after;
    if after.len() == 0 {
        assert(whole.drop_last() =~= before);
        assert(whole.last() == blank);
        assert(words(after) =~= Seq::empty());
        assert(words(whole) =~= words(before) + words(after));
    } else {
        lemma_split_after(before, blank, after);
        let (done, current) = split(after);
        assert(words(whole) =~= words(before) + words(after));
    }
}

proof fn lemma_split_after(before: Seq<char>, blank: char, after: Seq<char>)
    requires
        is_space(blank),
    ensures
        split(before + seq![blank] + after) == (words(before) + split(after).0, split(after).1),
    decreases after.len(),
{
    let whole = before + seq![blank] + after;
    if after.len() == 0 {
        assert(whole.drop_last() =~= before);
        assert(whole.last() == blank);
        assert(words(before) + split(after).0 =~= words(before));
        let (_, current) = split(before);
        assert(current.len() == 0 ==> current =~= Seq::empty());
    } else {
        lemma_split_after(before, blank, after.drop_last());
        assert(whole.drop_last() =~= before + seq![blank] + after.drop_last());
        assert(whole.last() == after.last());
        let (done, current) = split(after.drop_last());
        assert(words(before) + done.push(current) =~= (words(before) + done).push(current));
    }
}

/// A text without blanks is its own only word, and the empty one has none.
pub proof fn law_a_word_is_a_word(s: Seq<char>)
    requires
        forall|i: int| 0 <= i < s.len() ==> !is_space(#[trigger] s[i]),
    ensures
        words(s) == (if s.len() == 0 {
            Seq::<Seq<char>>::empty()
        } else {
            seq![s]
        }),
{
    lemma_split_word(s);
    assert(s.len() > 0 ==> words(s) =~= seq![s]);
}

proof fn lemma_split_word(s: Seq<char>)
    requires
        forall|i: int| 0 <= i < s.len() ==> !is_space(#[trigger] s[i]),
    ensures
        split(s) == (Seq::<Seq<char>>::empty(), s),
    decreases s.len(),
{
    if s.len() > 0 {
        let front = s.drop_last();
        assert forall|i: int| 0 <= i < front.len() implies !is_space(#[trigger] front[i]) by {
            assert(front[i] == s[i]);
        }
        lemma_split_word(front);
        assert(!is_space(s[s.len() - 1]));
        assert(front.push(s.last()) =~= s);
    } else {
        assert(s =~= Seq::empty());
    }
}

/// What is trimmed is blanks alone, at the two ends, and all that stand there.
pub proof fn law_trimming_takes_blanks_alone(s: Seq<char>)
    ensures
        ({
            let kept = trimmed_back(trimmed_front(s));
            &&& kept.len() > 0 ==> !is_space(kept[0]) && !is_space(kept.last())
            &&& exists|a: int, b: int|
                0 <= a <= b <= s.len() && kept == #[trigger] s.subrange(a, b) && (forall|i: int|
                    0 <= i < a || b <= i < s.len() ==> is_space(#[trigger] s[i]))
        }),
{
    let a = lemma_front(s);
    let rest = trimmed_front(s);
    let b = lemma_back(rest);
    let kept = trimmed_back(rest);
    assert(kept =~= s.subrange(a, a + b));
    assert forall|i: int| 0 <= i < a || a + b <= i < s.len() implies is_space(
        #[trigger] s[i],
    ) by {
        if i >= a + b {
            assert(rest[i - a] == s[i]);
        }
    }
    if kept.len() > 0 {
        assert(kept[0] == rest[0]);
    }
}

proof fn lemma_front(s: Seq<char>) -> (a: int)
    ensures
        0 <= a <= s.len(),
        trimmed_front(s) == s.skip(a),
        forall|i: int| 0 <= i < a ==> is_space(#[trigger] s[i]),
        a < s.len() ==> !is_space(s[a]),
    decreases s.len(),
{
    if s.len() > 0 && is_space(s[0]) {
        let rest = s.skip(1);
        let a = lemma_front(rest);
        assert(rest.skip(a) =~= s.skip(a + 1));
        assert forall|i: int| 0 <= i < a + 1 implies is_space(#[trigger] s[i]) by {
            if i > 0 {
                assert(rest[i - 1] == s[i]);
            }
        }
        a + 1
    } else {
        assert(s.skip(0) =~= s);
        0
    }
}

proof fn lemma_back(s: Seq<char>) -> (b: int)
    ensures
        0 <= b <= s.len(),
        trimmed_back(s) == s.take(b),
        forall|i: int| b <= i < s.len() ==> is_space(#[trigger] s[i]),
        b > 0 ==> !is_space(s[b - 1]),
    decreases s.len(),
{
    if s.len() > 0 && is_space(s.last()) {
        let rest = s.drop_last();
        let b = lemma_back(rest);
        assert(rest.take(b) =~= s.take(b));
        assert forall|i: int| b <= i < s.len() implies is_space(#[trigger] s[i]) by {
            if i < rest.len() {
                assert(rest[i] == s[i]);
            }
        }
        if b > 0 {
            assert(rest[b - 1] == s[b - 1]);
        }
        b
    } else {
        assert(s.take(s.len() as int) =~= s);
        s.len() as int
    }
}

} // verus!
