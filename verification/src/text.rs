//! Lines of text and how they are put together.

use vstd::prelude::*;

verus! {

/// The texts held by a sequence of strings.
pub open spec fn texts(strings: Seq<String>) -> Seq<Seq<char>> {
    strings.map_values(|s: String| s@)
}

/// The pieces one after another, with `sep` between each two of them.
pub open spec fn joined(pieces: Seq<Seq<char>>, sep: Seq<char>) -> Seq<char>
    decreases pieces.len(),
{
    if pieces.len() == 0 {
        Seq::empty()
    } else if pieces.len() == 1 {
        pieces[0]
    } else {
        joined(pieces.drop_last(), sep) + sep + pieces.last()
    }
}

/// A character that means nothing but itself to the shell.
pub open spec fn plain(c: char) -> bool {
    ||| 'a' <= c <= 'z'
    ||| 'A' <= c <= 'Z'
    ||| '0' <= c <= '9'
    ||| c == '-' || c == '_' || c == '.' || c == '/'
}

/// A word as it stands between single quotes: a single quote in it ends the quotes,
/// follows a backslash, and begins them again.
pub open spec fn escaped(word: Seq<char>) -> Seq<char>
    decreases word.len(),
{
    if word.len() == 0 {
        Seq::empty()
    } else if word.last() == '\'' {
        escaped(word.drop_last()) + "'\\''"@
    } else {
        escaped(word.drop_last()).push(word.last())
    }
}

/// Whether a word means itself to the shell as it is.
pub open spec fn is_plain(word: Seq<char>) -> bool {
    word.len() > 0 && forall|i: int| 0 <= i < word.len() ==> plain(#[trigger] word[i])
}

/// A word between single quotes, where nothing in it means anything to the shell.
pub open spec fn single_quoted(word: Seq<char>) -> Seq<char> {
    "'"@ + escaped(word) + "'"@
}

/// A word that some shell takes for part of its own language, where it comes first.
pub open spec fn reserved(word: Seq<char>) -> bool {
    ||| word == "case"@
    ||| word == "coproc"@
    ||| word == "do"@
    ||| word == "done"@
    ||| word == "elif"@
    ||| word == "else"@
    ||| word == "esac"@
    ||| word == "fi"@
    ||| word == "for"@
    ||| word == "function"@
    ||| word == "if"@
    ||| word == "in"@
    ||| word == "namespace"@
    ||| word == "select"@
    ||| word == "then"@
    ||| word == "time"@
    ||| word == "until"@
    ||| word == "while"@
}

/// Whether a word means itself to the shell as it is where it comes first: there a
/// reserved word does not, nor does one that begins like an option.
pub open spec fn is_plain_first(word: Seq<char>) -> bool {
    is_plain(word) && word[0] != '-' && !reserved(word)
}

/// A word as it is written for the shell behind others, so that it is read as a single
/// argument.
pub open spec fn quoted(word: Seq<char>) -> Seq<char> {
    if is_plain(word) {
        word
    } else {
        single_quoted(word)
    }
}

/// A word as it is written for the shell in first place, so that it is read as the name
/// of the command.
pub open spec fn quoted_first(word: Seq<char>) -> Seq<char> {
    if is_plain_first(word) {
        word
    } else {
        single_quoted(word)
    }
}

/// A line as it is written out: its text and a line feed.
pub open spec fn terminated(line: Seq<char>) -> Seq<char> {
    line.push('\n')
}

/// Lines as they are written out, one after another.
pub open spec fn written(lines: Seq<Seq<char>>) -> Seq<char> {
    lines.map_values(|line: Seq<char>| terminated(line)).flatten()
}

/// Joins the strings with a single space between each two of them.
pub fn join_with_spaces(strings: &Vec<String>) -> (whole: String)
    ensures
        whole@ == joined(texts(strings@), " "@),
{
    let mut whole = String::new();
    let mut i: usize = 0;
    while i < strings.len()
        invariant
            i <= strings.len(),
            whole@ == joined(texts(strings@).take(i as int), " "@),
        decreases strings.len() - i,
    {
        if i > 0 {
            whole.append(" ");
        }
        whole.append(strings[i].as_str());
        proof {
            let upto = texts(strings@).take(i + 1);
            assert(upto.drop_last() =~= texts(strings@).take(i as int));
            assert(upto.last() == strings@[i as int]@);
            if i == 0 {
                assert(whole@ =~= upto[0]);
            }
        }
        i += 1;
    }
    assert(texts(strings@).take(i as int) =~= texts(strings@));
    whole
}

/// Whether the word means itself to the shell as it is.
fn check_plain(word: &str) -> (yes: bool)
    ensures
        yes == is_plain(word@),
{
    let len = word.unicode_len();
    let mut i: usize = 0;
    while i < len
        invariant
            len == word@.len(),
            i <= len,
            forall|k: int| 0 <= k < i ==> plain(#[trigger] word@[k]),
        decreases len - i,
    {
        let c = word.get_char(i);
        if !(('a' <= c && c <= 'z') || ('A' <= c && c <= 'Z') || ('0' <= c && c <= '9') || c == '-'
            || c == '_' || c == '.' || c == '/') {
            assert(!plain(word@[i as int]));
            return false;
        }
        i += 1;
    }
    len > 0
}

/// Whether some shell takes the word for part of its own language.
fn check_reserved(word: &str) -> (yes: bool)
    ensures
        yes == reserved(word@),
{
    same(word, "case") || same(word, "coproc") || same(word, "do") || same(word, "done") || same(
        word,
        "elif",
    ) || same(word, "else") || same(word, "esac") || same(word, "fi") || same(word, "for") || same(
        word,
        "function",
    ) || same(word, "if") || same(word, "in") || same(word, "namespace") || same(word, "select")
        || same(word, "then") || same(word, "time") || same(word, "until") || same(word, "while")
}

/// Whether two words are the same.
fn same(a: &str, b: &str) -> (yes: bool)
    ensures
        yes == (a@ == b@),
{
    a.to_owned() == b.to_owned()
}

/// Writes the word for the shell behind others, so that it is read as a single argument.
pub fn quote(word: &str) -> (whole: String)
    ensures
        whole@ == quoted(word@),
{
    if check_plain(word) {
        word.to_owned()
    } else {
        single_quote(word)
    }
}

/// Writes the word for the shell in first place, so that it is read as the name of the
/// command.
pub fn quote_first(word: &str) -> (whole: String)
    ensures
        whole@ == quoted_first(word@),
{
    if check_plain(word) && word.get_char(0) != '-' && !check_reserved(word) {
        word.to_owned()
    } else {
        single_quote(word)
    }
}

/// Writes the word between single quotes.
fn single_quote(word: &str) -> (whole: String)
    ensures
        whole@ == single_quoted(word@),
{
    let len = word.unicode_len();
    let mut whole = "'".to_owned();
    let mut i: usize = 0;
    assert(whole@ =~= "'"@ + escaped(word@.take(0)));
    while i < len
        invariant
            len == word@.len(),
            i <= len,
            whole@ == "'"@ + escaped(word@.take(i as int)),
        decreases len - i,
    {
        if word.get_char(i) == '\'' {
            whole.append("'\\''");
        } else {
            whole.append(word.substring_char(i, i + 1));
        }
        proof {
            let upto = word@.take(i + 1);
            assert(upto.drop_last() =~= word@.take(i as int));
            assert(upto.last() == word@[i as int]);
            assert(whole@ =~= "'"@ + escaped(upto));
        }
        i += 1;
    }
    assert(word@.take(i as int) =~= word@);
    whole.append("'");
    whole
}

/// Appends `line` and a line feed.
pub(crate) fn append_line(to: &mut String, line: &str)
    ensures
        final(to)@ == old(to)@ + terminated(line@),
{
    to.append(line);
    to.append("\n");
    proof {
        reveal_strlit("\n");
        assert(to@ =~= old(to)@ + terminated(line@));
    }
}

/// Writing out one line more adds that line and a line feed.
pub(crate) proof fn lemma_written_push(lines: Seq<Seq<char>>, line: Seq<char>)
    ensures
        written(lines.push(line)) == written(lines) + terminated(line),
{
    let ends = |l: Seq<char>| terminated(l);
    assert(lines.push(line).map_values(ends) =~= lines.map_values(ends).push(terminated(line)));
    lines.map_values(ends).lemma_flatten_push(terminated(line));
}

/// Lines can be written out in two parts.
pub(crate) proof fn lemma_written_add(first: Seq<Seq<char>>, rest: Seq<Seq<char>>)
    ensures
        written(first + rest) == written(first) + written(rest),
    decreases rest.len(),
{
    if rest.len() == 0 {
        assert(first + rest =~= first);
        assert(written(first) + written(rest) =~= written(first));
    } else {
        let init = rest.drop_last();
        let line = rest.last();
        lemma_written_add(first, init);
        lemma_written_push(first + init, line);
        lemma_written_push(init, line);
        assert(first + rest =~= (first + init).push(line));
        assert(rest =~= init.push(line));
        assert(written(first) + (written(init) + terminated(line)) =~= written(first) + written(init)
            + terminated(line));
    }
}

/// The texts of strings are those of each of them, in order.
pub proof fn law_texts_are_those_of_each(strings: Seq<String>)
    ensures
        texts(strings).len() == strings.len(),
        forall|i: int| 0 <= i < strings.len() ==> #[trigger] texts(strings)[i] == strings[i]@,
{
}

/// A single piece is joined to itself, and the pieces of two lists are joined to what each
/// list is joined to, with the separator between.
pub proof fn law_joined(first: Seq<Seq<char>>, rest: Seq<Seq<char>>, piece: Seq<char>, sep: Seq<char>)
    ensures
        joined(Seq::empty(), sep) == Seq::<char>::empty(),
        joined(seq![piece], sep) == piece,
        first.len() > 0 && rest.len() > 0 ==> joined(first + rest, sep) == joined(first, sep) + sep
            + joined(rest, sep),
    decreases rest.len(),
{
    if first.len() > 0 && rest.len() > 0 {
        let whole = first + rest;
        let init = rest.drop_last();
        assert(whole.drop_last() =~= first + init);
        assert(whole.last() == rest.last());
        if rest.len() == 1 {
            assert(first + init =~= first);
        } else {
            law_joined(first, init, piece, sep);
            assert(joined(first, sep) + sep + joined(init, sep) + sep + rest.last() =~= joined(
                first,
                sep,
            ) + sep + (joined(init, sep) + sep + rest.last()));
        }
    }
}

/// A line is written out as its text and a line feed, and lines are written out one after
/// another.
pub proof fn law_written(first: Seq<Seq<char>>, rest: Seq<Seq<char>>, line: Seq<char>)
    ensures
        terminated(line) == line + seq!['\n'],
        written(Seq::empty()) == Seq::<char>::empty(),
        written(seq![line]) == line + seq!['\n'],
        written(first + rest) == written(first) + written(rest),
{
    lemma_written_add(first, rest);
    lemma_written_push(Seq::empty(), line);
    assert(Seq::<Seq<char>>::empty().push(line) =~= seq![line]);
    assert(terminated(line) =~= line + seq!['\n']);
    assert(written(Seq::empty()) =~= Seq::<char>::empty());
    assert(Seq::<char>::empty() + terminated(line) =~= terminated(line));
}

/// Between quotes every character stands for itself, but for the single quote, and what
/// stands for two words one after another is what stands for each of them.
pub proof fn law_escaped(first: Seq<char>, rest: Seq<char>, c: char)
    ensures
        escaped(Seq::empty()) == Seq::<char>::empty(),
        escaped(seq![c]) == (if c == '\'' {
            seq!['\'', '\\', '\'', '\'']
        } else {
            seq![c]
        }),
        escaped(first + rest) == escaped(first) + escaped(rest),
    decreases rest.len(),
{
    reveal_strlit("'\\''");
    assert(seq![c].drop_last() =~= Seq::empty());
    assert(escaped(seq![c].drop_last()) =~= Seq::empty());
    assert("'\\''"@ =~= seq!['\'', '\\', '\'', '\'']);
    assert(escaped(seq![c]) =~= (if c == '\'' {
        seq!['\'', '\\', '\'', '\'']
    } else {
        seq![c]
    }));
    if rest.len() == 0 {
        assert(first + rest =~= first);
        assert(escaped(first) + escaped(rest) =~= escaped(first));
    } else {
        law_escaped(first, rest.drop_last(), c);
        assert((first + rest).drop_last() =~= first + rest.drop_last());
        assert(escaped(first + rest) =~= escaped(first) + escaped(rest));
    }
}

/// A word is written as it is where it holds a character, and letters, digits and `-_./`
/// only; any other word stands between single quotes.  In first place a word is quoted as
/// well that begins with a hyphen or belongs to the language of the shell.
pub proof fn law_quoted(word: Seq<char>)
    ensures
        ({
            let harmless = word.len() > 0 && forall|i: int|
                0 <= i < word.len() ==> {
                    let c = #[trigger] word[i] as int;
                    45 <= c <= 57 || 65 <= c <= 90 || c == 95 || 97 <= c <= 122
                };
            let wrapped = seq!['\''] + escaped(word) + seq!['\''];
            &&& quoted(word) == (if harmless { word } else { wrapped })
            &&& quoted_first(word) == word || quoted_first(word) == wrapped
            &&& !harmless || word[0] == '-' ==> quoted_first(word) == wrapped
            &&& word == "case"@ || word == "do"@ || word == "done"@ || word == "elif"@ || word
                == "else"@ || word == "esac"@ || word == "fi"@ || word == "for"@ || word == "if"@
                || word == "in"@ || word == "then"@ || word == "until"@ || word == "while"@
                ==> quoted_first(word) == wrapped
            &&& harmless && word[0] != '-' && word.len() > 9 ==> quoted_first(word) == word
        }),
{
    reveal_strlit("'");
    assert("'"@ =~= seq!['\'']);
    lemma_reserved_words_are_short(word);
    if word.len() > 0 && forall|i: int| 0 <= i < word.len() ==> plain(#[trigger] word[i]) {
        assert forall|i: int| 0 <= i < word.len() implies {
            let c = #[trigger] word[i] as int;
            45 <= c <= 57 || 65 <= c <= 90 || c == 95 || 97 <= c <= 122
        } by {
            assert(plain(word[i]));
        }
    }
    if word.len() > 0 && forall|i: int|
        0 <= i < word.len() ==> {
            let c = #[trigger] word[i] as int;
            45 <= c <= 57 || 65 <= c <= 90 || c == 95 || 97 <= c <= 122
        } {
        assert forall|i: int| 0 <= i < word.len() implies plain(#[trigger] word[i]) by {
            let c = word[i] as int;
            assert(45 <= c <= 57 || 65 <= c <= 90 || c == 95 || 97 <= c <= 122);
        }
    }
}

proof fn lemma_reserved_words_are_short(word: Seq<char>)
    ensures
        reserved(word) ==> word.len() <= 9,
{
    reveal_strlit("case");
    reveal_strlit("coproc");
    reveal_strlit("do");
    reveal_strlit("done");
    reveal_strlit("elif");
    reveal_strlit("else");
    reveal_strlit("esac");
    reveal_strlit("fi");
    reveal_strlit("for");
    reveal_strlit("function");
    reveal_strlit("if");
    reveal_strlit("in");
    reveal_strlit("namespace");
    reveal_strlit("select");
    reveal_strlit("then");
    reveal_strlit("time");
    reveal_strlit("until");
    reveal_strlit("while");
}

} // verus!
