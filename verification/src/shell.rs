//! How the shell reads a script made of words and quotes.

use vstd::prelude::*;

use crate::args;
use crate::args::{ArgsView, SourceView};
use crate::text;

verus! {

/// What a character means, by where it stands.
pub enum Mode {
    /// Outside of quotes.
    Bare,
    /// Between single quotes.
    Quoted,
    /// After a backslash.
    Escaped,
}

/// How far a script has been read.
#[verifier::ext_equal]
pub struct Reading {
    /// The arguments that are complete.
    pub done: Seq<Seq<char>>,
    /// The argument at hand, if one has begun.
    pub word: Option<Seq<char>>,
    /// Whether no part of the argument at hand was quoted.
    pub bare: bool,
    pub mode: Mode,
}

impl Reading {
    /// Nothing has been read.
    pub open spec fn start() -> Reading {
        Reading { done: Seq::empty(), word: None, bare: true, mode: Mode::Bare }
    }

    /// The argument at hand, which is empty where none had begun.
    pub open spec fn at_hand(self) -> Seq<char> {
        match self.word {
            Some(word) => word,
            None => Seq::empty(),
        }
    }

    /// Whether the argument at hand is the name of the command.
    pub open spec fn is_first(self) -> bool {
        self.done.len() == 0
    }

    /// The argument at hand ends here.  A reserved word in first place, no part of it
    /// quoted, is no argument: there it is `None`.
    pub open spec fn end_word(self) -> Option<Reading> {
        match self.word {
            Some(word) => if self.is_first() && self.bare && text::reserved(word) {
                None
            } else {
                Some(Reading { done: self.done.push(word), word: None, bare: true, ..self })
            },
            None => Some(self),
        }
    }

    /// One more character is read.  Outside of quotes and backslashes this speaks of plain
    /// characters and spaces only, and of no hyphen that begins the script, which would
    /// make an option of it: where anything else stands there, it is `None`.
    pub open spec fn next(self, c: char) -> Option<Reading> {
        let more = Some(self.at_hand().push(c));
        let begun = Some(self.at_hand());
        match self.mode {
            Mode::Bare => if c == '\'' {
                Some(Reading { word: begun, bare: false, mode: Mode::Quoted, ..self })
            } else if c == '\\' {
                Some(Reading { word: begun, bare: false, mode: Mode::Escaped, ..self })
            } else if c == ' ' {
                self.end_word()
            } else if text::plain(c) && !(c == '-' && self.is_first() && self.word is None) {
                Some(Reading { word: more, ..self })
            } else {
                None
            },
            Mode::Quoted => if c == '\'' {
                Some(Reading { mode: Mode::Bare, ..self })
            } else {
                Some(Reading { word: more, ..self })
            },
            Mode::Escaped => if c == '\n' {
                None
            } else {
                Some(Reading { word: more, mode: Mode::Bare, ..self })
            },
        }
    }

    /// The rest of a script is read.
    pub open spec fn read(self, script: Seq<char>) -> Option<Reading>
        decreases script.len(),
    {
        if script.len() == 0 {
            Some(self)
        } else {
            match self.read(script.drop_last()) {
                Some(before) => before.next(script.last()),
                None => None,
            }
        }
    }

    /// The arguments of a script that ends here, unless it ends within quotes.
    pub open spec fn arguments(self) -> Option<Seq<Seq<char>>> {
        match (self.mode, self.end_word()) {
            (Mode::Bare, Some(end)) => Some(end.done),
            _ => None,
        }
    }
}

/// The arguments that the shell reads in a script, the name of the command first.
pub open spec fn arguments(script: Seq<char>) -> Option<Seq<Seq<char>>> {
    match Reading::start().read(script) {
        Some(end) => end.arguments(),
        None => None,
    }
}

proof fn lemma_read_add(from: Reading, first: Seq<char>, rest: Seq<char>)
    ensures
        from.read(first + rest) == (match from.read(first) {
            Some(middle) => middle.read(rest),
            None => None,
        }),
    decreases rest.len(),
{
    if rest.len() == 0 {
        assert(first + rest =~= first);
    } else {
        lemma_read_add(from, first, rest.drop_last());
        assert((first + rest).drop_last() =~= first + rest.drop_last());
    }
}

proof fn lemma_read_one(from: Reading, c: char)
    ensures
        from.read(seq![c]) == from.next(c),
{
    assert(seq![c].drop_last() =~= Seq::empty());
    assert(from.read(seq![c].drop_last()) == Some(from));
}

proof fn lemma_read_plain(from: Reading, word: Seq<char>)
    requires
        from.mode is Bare,
        from.word is None,
        from.is_first() ==> word[0] != '-',
        forall|i: int| 0 <= i < word.len() ==> text::plain(#[trigger] word[i]),
        word.len() > 0,
    ensures
        from.read(word) == Some(Reading { word: Some(word), ..from }),
    decreases word.len(),
{
    let init = word.drop_last();
    assert(text::plain(word[word.len() - 1]));
    if init.len() == 0 {
        assert(from.read(init) == Some(from));
        assert(Seq::empty().push(word.last()) =~= word);
    } else {
        assert forall|i: int| 0 <= i < init.len() implies text::plain(#[trigger] init[i]) by {
            assert(init[i] == word[i]);
        }
        lemma_read_plain(from, init);
        assert(init.push(word.last()) =~= word);
    }
}

proof fn lemma_read_escaped(from: Reading, word: Seq<char>)
    requires
        !from.bare,
        from.mode is Quoted,
        from.word == Some(Seq::<char>::empty()),
    ensures
        from.read(text::escaped(word)) == Some(Reading { word: Some(word), ..from }),
    decreases word.len(),
{
    if word.len() == 0 {
        assert(word =~= Seq::empty());
    } else {
        let init = word.drop_last();
        let last = word.last();
        let before = text::escaped(init);
        let middle = Reading { word: Some(init), ..from };
        lemma_read_escaped(from, init);
        assert(init.push(last) =~= word);
        if last == '\'' {
            reveal_strlit("'\\''");
            assert("'\\''"@ =~= seq!['\''] + seq!['\\'] + seq!['\''] + seq!['\'']);
            lemma_read_add(from, before, "'\\''"@);
            lemma_read_add(middle, seq!['\''] + seq!['\\'] + seq!['\''], seq!['\'']);
            lemma_read_add(middle, seq!['\''] + seq!['\\'], seq!['\'']);
            lemma_read_add(middle, seq!['\''], seq!['\\']);
            let bare = Reading { mode: Mode::Bare, ..middle };
            let slash = Reading { mode: Mode::Escaped, ..middle };
            let again = Reading { word: Some(word), mode: Mode::Bare, ..middle };
            lemma_read_one(middle, '\'');
            lemma_read_one(bare, '\\');
            lemma_read_one(slash, '\'');
            lemma_read_one(again, '\'');
        } else {
            assert(before.push(last) =~= before + seq![last]);
            lemma_read_add(from, before, seq![last]);
            lemma_read_one(middle, last);
        }
    }
}

proof fn lemma_read_single_quoted(from: Reading, word: Seq<char>)
    requires
        from.mode is Bare,
        from.word is None,
    ensures
        from.read(text::single_quoted(word)) == Some(
            Reading { word: Some(word), bare: false, ..from },
        ),
{
    reveal_strlit("'");
    assert("'"@ =~= seq!['\'']);
    let open = Reading { word: Some(Seq::empty()), bare: false, mode: Mode::Quoted, ..from };
    let full = Reading { word: Some(word), bare: false, mode: Mode::Quoted, ..from };
    lemma_read_add(from, "'"@ + text::escaped(word), "'"@);
    lemma_read_add(from, "'"@, text::escaped(word));
    lemma_read_one(from, '\'');
    lemma_read_escaped(open, word);
    lemma_read_one(full, '\'');
}

/// Whether a word stands in a script without quotes.
spec fn stands_bare(words: Seq<Seq<char>>, i: int) -> bool {
    if i == 0 {
        text::is_plain_first(words[i])
    } else {
        text::is_plain(words[i])
    }
}

proof fn lemma_read_piece(from: Reading, words: Seq<Seq<char>>, i: int)
    requires
        0 <= i < words.len(),
        from.mode is Bare,
        from.word is None,
        from.bare,
        from.is_first() <==> i == 0,
    ensures
        from.read(args::pieces_of(words)[i]) == Some(
            Reading { word: Some(words[i]), bare: stands_bare(words, i), ..from },
        ),
{
    if stands_bare(words, i) {
        lemma_read_plain(from, words[i]);
    } else {
        lemma_read_single_quoted(from, words[i]);
    }
}

proof fn lemma_read_script(words: Seq<Seq<char>>)
    requires
        words.len() > 0,
    ensures
        Reading::start().read(args::script_of(words)) == Some(
            Reading {
                done: words.drop_last(),
                word: Some(words.last()),
                bare: stands_bare(words, words.len() - 1),
                mode: Mode::Bare,
            },
        ),
    decreases words.len(),
{
    let last = words.len() - 1;
    if words.len() == 1 {
        lemma_read_piece(Reading::start(), words, 0);
        assert(words.drop_last() =~= Seq::empty());
    } else {
        let init = words.drop_last();
        let before = args::script_of(init);
        assert(args::pieces_of(words).drop_last() =~= args::pieces_of(init));
        lemma_read_script(init);
        reveal_strlit(" ");
        assert(" "@ =~= seq![' ']);
        let middle = Reading {
            done: init.drop_last(),
            word: Some(init.last()),
            bare: stands_bare(init, last - 1),
            mode: Mode::Bare,
        };
        let gap = Reading { done: init, word: None, bare: true, mode: Mode::Bare };
        lemma_read_add(Reading::start(), before + " "@, args::pieces_of(words)[last]);
        lemma_read_add(Reading::start(), before, " "@);
        lemma_read_one(middle, ' ');
        assert(init.drop_last().push(init.last()) =~= init);
        lemma_read_piece(gap, words, last);
    }
}

/// Each word of a command is a single argument: what the shell reads in the script of a
/// command is its words, whatever they are, and the first of them is the name of the
/// command.
pub proof fn law_each_word_is_a_single_argument(words: Seq<Seq<char>>)
    ensures
        arguments(args::script_of(words)) == Some(words),
{
    if words.len() == 0 {
        assert(words =~= Seq::empty());
    } else {
        lemma_read_script(words);
        assert(words.drop_last().push(words.last()) =~= words);
    }
}

/// What a run starts is the command that was given, whatever its flags are: the shell reads
/// its script as exactly the words.  Without a command, it is stdin.
pub proof fn law_a_run_starts_the_command_given(args: ArgsView)
    ensures
        match args.source() {
            SourceView::Stdin(_) => args.words.len() == 0,
            SourceView::Command { script, .. } => {
                &&& args.words.len() != 0
                &&& arguments(script) == Some(args.words)
                &&& script == args::script_of(args.words)
            },
        },
{
    law_each_word_is_a_single_argument(args.words);
}

} // verus!
