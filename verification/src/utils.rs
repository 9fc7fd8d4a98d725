//! Text helpers shared by the modules.

pub mod shell_parser;

use crate::services::ServiceKind;
use crate::text::{matches_at, replace, replace_from, replaced, string_of, to_chars};
use vstd::prelude::*;

verus! {

/// `text` with the mentions that reach everybody broken: on Discord a
/// zero-width space goes behind the `@` of every `@everyone` and, after
/// that, of every `@here`.
pub open spec fn escaped(service: ServiceKind, text: Seq<char>) -> Seq<char> {
    match service {
        ServiceKind::Discord => replaced(
            replaced(text, "@everyone"@, "@\u{200B}everyone"@),
            "@here"@,
            "@\u{200B}here"@,
        ),
    }
}

/// The characters of `text`, made safe to post.
pub fn escape_chars(service: ServiceKind, text: &Vec<char>) -> (r: Vec<char>)
    ensures
        r@ == escaped(service, text@),
{
    match service {
        ServiceKind::Discord => {
            proof {
                reveal_strlit("@everyone");
                reveal_strlit("@here");
            }
            let first = replace(text, &to_chars("@everyone"), &to_chars("@\u{200B}everyone"));
            replace(&first, &to_chars("@here"), &to_chars("@\u{200B}here"))
        },
    }
}

/// Makes text that a guest wrote safe to post: it can no longer mention
/// everybody.
pub fn escape_untrusted_text(service: ServiceKind, text: String) -> (r: String)
    ensures
        r@ == escaped(service, text@),
{
    let chars = to_chars(text.as_str());
    string_of(&escape_chars(service, &chars))
}

/// Whether a replacement breaks a word: the word and what stands for it
/// open with the same character, which stands nowhere else in either,
/// and they differ in the character behind it.
pub open spec fn breaks(word: Seq<char>, to: Seq<char>) -> bool {
    &&& word.len() >= 2
    &&& to.len() >= 2
    &&& to[0] == word[0]
    &&& to[1] != word[1]
    &&& forall|j: int| 1 <= j < word.len() ==> #[trigger] word[j] != word[0]
    &&& forall|j: int| 1 <= j < to.len() ==> #[trigger] to[j] != word[0]
}

/// What opens the text after a replacement and holds no first character
/// of the replacement opened the text before as well.
proof fn lemma_plain_prefix(s: Seq<char>, pat: Seq<char>, to: Seq<char>, i: int, plain: Seq<char>)
    requires
        0 <= i <= s.len(),
        to.len() >= 1,
        forall|j: int| 0 <= j < plain.len() ==> #[trigger] plain[j] != to[0],
        matches_at(replace_from(s, pat, to, i), plain, 0),
    ensures
        matches_at(s, plain, i),
    decreases plain.len(),
{
    let out = replace_from(s, pat, to, i);
    if plain.len() == 0 {
        assert(s.subrange(i, i + 0) =~= plain);
    } else {
        assert(out.subrange(0, plain.len() as int)[0] == plain[0]);
        assert(out[0] == plain[0]);
        assert(i < s.len());
        if pat.len() > 0 && matches_at(s, pat, i) {
            assert(out[0] == to[0]);
        } else {
            let rest = replace_from(s, pat, to, i + 1);
            assert(out =~= seq![s[i]] + rest);
            let tail = plain.drop_first();
            assert(rest.subrange(0, tail.len() as int) =~= out.subrange(
                0,
                plain.len() as int,
            ).drop_first());
            assert forall|j: int| 0 <= j < tail.len() implies #[trigger] tail[j] != to[0] by {
                assert(tail[j] == plain[j + 1]);
            }
            lemma_plain_prefix(s, pat, to, i + 1, tail);
            assert(s.subrange(i, i + plain.len()) =~= seq![s[i]] + s.subrange(
                i + 1,
                i + 1 + tail.len(),
            ));
            assert(plain =~= seq![plain[0]] + tail);
        }
    }
}

/// Where a word stands in a text after a replacement that breaks it, it
/// stood in the text before, at a place where nothing was replaced.
proof fn lemma_word_was_there(
    s: Seq<char>,
    pat: Seq<char>,
    to: Seq<char>,
    word: Seq<char>,
    i: int,
    k: int,
)
    requires
        0 <= i,
        breaks(word, to),
        matches_at(replace_from(s, pat, to, i), word, k),
    ensures
        exists|m: int| i <= m && matches_at(s, word, m) && !(pat.len() > 0 && matches_at(s, pat, m)),
    decreases s.len() - i,
{
    let out = replace_from(s, pat, to, i);
    assert(out.len() >= 2);
    assert(i < s.len());
    if pat.len() > 0 && matches_at(s, pat, i) {
        let rest = replace_from(s, pat, to, i + pat.len());
        assert(out =~= to + rest);
        if k >= to.len() {
            assert(rest.subrange(k - to.len(), k - to.len() + word.len()) =~= out.subrange(
                k,
                k + word.len(),
            ));
            lemma_word_was_there(s, pat, to, word, i + pat.len(), k - to.len());
        } else {
            assert(out.subrange(k, k + word.len())[0] == word[0]);
            assert(out[k] == to[k]);
            assert(k == 0);
            assert(out.subrange(k, k + word.len())[1] == word[1]);
            assert(out[1] == to[1]);
        }
    } else {
        let rest = replace_from(s, pat, to, i + 1);
        assert(out =~= seq![s[i]] + rest);
        if k >= 1 {
            assert(rest.subrange(k - 1, k - 1 + word.len()) =~= out.subrange(k, k + word.len()));
            lemma_word_was_there(s, pat, to, word, i + 1, k - 1);
        } else {
            let tail = word.drop_first();
            assert(out.subrange(0, word.len() as int)[0] == word[0]);
            assert(s[i] == word[0]);
            assert(rest.subrange(0, tail.len() as int) =~= out.subrange(
                0,
                word.len() as int,
            ).drop_first());
            assert forall|j: int| 0 <= j < tail.len() implies #[trigger] tail[j] != to[0] by {
                assert(tail[j] == word[j + 1]);
            }
            lemma_plain_prefix(s, pat, to, i + 1, tail);
            assert(s.subrange(i, i + word.len()) =~= seq![s[i]] + s.subrange(
                i + 1,
                i + 1 + tail.len(),
            ));
            assert(word =~= seq![word[0]] + tail);
            assert(matches_at(s, word, i));
        }
    }
}

/// Text that was made safe to post mentions neither everyone nor
/// everybody here: neither word stands anywhere in it.
pub proof fn law_escaped_mentions_nobody(text: Seq<char>, k: int)
    ensures
        !matches_at(escaped(crate::services::ServiceKind::Discord, text), "@everyone"@, k),
        !matches_at(escaped(crate::services::ServiceKind::Discord, text), "@here"@, k),
{
    reveal_strlit("@everyone");
    reveal_strlit("@here");
    reveal_strlit("@\u{200B}everyone");
    reveal_strlit("@\u{200B}here");
    let everyone = "@everyone"@;
    let here = "@here"@;
    let to_everyone = "@\u{200B}everyone"@;
    let to_here = "@\u{200B}here"@;
    let first = replaced(text, everyone, to_everyone);
    let second = replaced(first, here, to_here);
    assert(breaks(everyone, to_everyone));
    assert(breaks(here, to_here));
    assert(breaks(everyone, to_here));
    if matches_at(second, here, k) {
        lemma_word_was_there(first, here, to_here, here, 0, k);
    }
    if matches_at(second, everyone, k) {
        lemma_word_was_there(first, here, to_here, everyone, 0, k);
        let m = choose|m: int| 0 <= m && matches_at(first, everyone, m);
        lemma_word_was_there(text, everyone, to_everyone, everyone, 0, m);
    }
}

} // verus!
