//! The command line that is sent to the remote shell: every argument quoted
//! on its own, the quoted arguments joined by single spaces.

use vstd::prelude::*;

verus! {

/// The characters that a POSIX shell reads as themselves outside quotes, as
/// far as the quoting below relies on it: letters, digits and `-_=/,.+`.
pub open spec fn is_plain(c: char) -> bool {
    ||| 'a' <= c <= 'z'
    ||| 'A' <= c <= 'Z'
    ||| '0' <= c <= '9'
    ||| c == '-'
    ||| c == '_'
    ||| c == '='
    ||| c == '/'
    ||| c == ','
    ||| c == '.'
    ||| c == '+'
}

/// A word needs no quotes when it is non-empty and all plain.
pub open spec fn is_plain_word(word: Seq<char>) -> bool {
    &&& word.len() > 0
    &&& forall|i: int| 0 <= i < word.len() ==> is_plain(#[trigger] word[i])
}

/// One character as it stands between single quotes. A single quote cannot
/// stand there: the quotes are closed, the character is written behind a
/// backslash, and the quotes are opened again. An exclamation mark is
/// written the same way.
pub open spec fn quoted_char(c: char) -> Seq<char> {
    if c == '\'' || c == '!' {
        seq!['\'', '\\', c, '\'']
    } else {
        seq![c]
    }
}

/// The characters of `word` as they stand between single quotes.
pub open spec fn quoted_body(word: Seq<char>) -> Seq<char>
    decreases word.len(),
{
    if word.len() == 0 {
        Seq::empty()
    } else {
        quoted_body(word.drop_last()) + quoted_char(word.last())
    }
}

/// `word` as one shell word: itself when plain, between single quotes
/// otherwise.
pub open spec fn quoted(word: Seq<char>) -> Seq<char> {
    if is_plain_word(word) {
        word
    } else {
        seq!['\''] + quoted_body(word) + seq!['\'']
    }
}

/// The command line of `words`: each quoted, one space between neighbours.
pub open spec fn command_line(words: Seq<Seq<char>>) -> Seq<char>
    decreases words.len(),
{
    if words.len() == 0 {
        Seq::empty()
    } else if words.len() == 1 {
        quoted(words[0])
    } else {
        command_line(words.drop_last()) + seq![' '] + quoted(words.last())
    }
}

/// `shell_escape::unix::escape`, on an owned copy of the result. The crate
/// returns a word of letters, digits and `-_=/,.+` unchanged if it is not
/// empty; any other word it puts between single quotes, writing each single
/// quote and each exclamation mark of the word as `'\c'`. That is `quoted`.
#[verifier::external_body]
fn escape_word(word: &str) -> (escaped: String)
    ensures
        escaped@ == quoted(word@),
{
    shell_escape::unix::escape(std::borrow::Cow::Borrowed(word)).into_owned()
}

/// The command line that runs `args` on the remote side: the arguments are
/// quoted one by one, so that the remote shell splits the line into the
/// same arguments again, and joined by single spaces.
pub fn remote_command(args: &Vec<String>) -> (line: String)
    ensures
        line@ == command_line(crate::path::texts(args@)),
{
    let ghost words = crate::path::texts(args@);
    let mut line = String::new();
    let mut i: usize = 0;
    proof {
        reveal_strlit(" ");
        assert(words.subrange(0, 0) == Seq::<Seq<char>>::empty());
    }
    while i < args.len()
        invariant
            i <= args.len(),
            words == crate::path::texts(args@),
            " "@ == seq![' '],
            line@ == command_line(words.subrange(0, i as int)),
        decreases args.len() - i,
    {
        let ghost upto = words.subrange(0, i + 1);
        proof {
            assert(upto.drop_last() == words.subrange(0, i as int));
            assert(upto.last() == args@[i as int]@);
        }
        if i > 0 {
            line.append(" ");
        } else {
            proof {
                assert(Seq::<char>::empty() + quoted(upto.last()) == quoted(upto.last()));
            }
        }
        let word = escape_word(args[i].as_str());
        line.append(word.as_str());
        i += 1;
    }
    proof {
        assert(words.subrange(0, args.len() as int) == words);
    }
    line
}

// ---------------------------------------------------------------------------
// How a shell reads the line
// ---------------------------------------------------------------------------

/// Where a shell stands inside a line with respect to quoting.
pub enum Quoting {
    /// Outside quotes.
    Bare,
    /// Between single quotes.
    Quoted,
    /// Behind a backslash, outside quotes.
    Escaped,
}

/// A shell in the middle of splitting a line into words: the words that are
/// complete, the word that is being read, if one has begun, and the quoting.
pub struct Reader {
    pub done: Seq<Seq<char>>,
    pub word: Option<Seq<char>>,
    pub mode: Quoting,
}

/// A shell that has read nothing.
pub open spec fn fresh() -> Reader {
    Reader { done: Seq::empty(), word: None, mode: Quoting::Bare }
}

/// The characters of the word that is being read.
pub open spec fn so_far(r: Reader) -> Seq<char> {
    match r.word {
        Some(w) => w,
        None => Seq::empty(),
    }
}

/// The shell after one more character, by the quoting rules of a POSIX
/// shell as far as single quotes, the backslash and the blank go. Between
/// single quotes every character but the single quote stands for itself.
/// Outside quotes a blank ends the word, a single quote opens quotes, the
/// character behind a backslash stands for itself, and so does every other
/// character.
pub open spec fn read_char(r: Reader, c: char) -> Reader {
    match r.mode {
        Quoting::Quoted => if c == '\'' {
            Reader { mode: Quoting::Bare, ..r }
        } else {
            Reader { word: Some(so_far(r).push(c)), ..r }
        },
        Quoting::Escaped => Reader { word: Some(so_far(r).push(c)), mode: Quoting::Bare, ..r },
        Quoting::Bare => if c == ' ' {
            match r.word {
                Some(w) => Reader { done: r.done.push(w), word: None, mode: Quoting::Bare },
                None => r,
            }
        } else if c == '\'' {
            Reader { word: Some(so_far(r)), mode: Quoting::Quoted, ..r }
        } else if c == '\\' {
            Reader { word: Some(so_far(r)), mode: Quoting::Escaped, ..r }
        } else {
            Reader { word: Some(so_far(r).push(c)), ..r }
        },
    }
}

/// The shell after the characters of `text`.
pub open spec fn read(r: Reader, text: Seq<char>) -> Reader
    decreases text.len(),
{
    if text.len() == 0 {
        r
    } else {
        read_char(read(r, text.drop_last()), text.last())
    }
}

/// The words that a shell splits `line` into.
pub open spec fn shell_words(line: Seq<char>) -> Seq<Seq<char>> {
    let r = read(fresh(), line);
    match r.word {
        Some(w) => r.done.push(w),
        None => r.done,
    }
}

/// Reading two texts one after the other is reading the second where the
/// first has left the shell.
pub proof fn lemma_read_concat(r: Reader, first: Seq<char>, second: Seq<char>)
    ensures
        read(r, first + second) == read(read(r, first), second),
    decreases second.len(),
{
    let both = first + second;
    if second.len() == 0 {
        assert(both == first);
    } else {
        assert(both.drop_last() == first + second.drop_last());
        assert(both.last() == second.last());
        lemma_read_concat(r, first, second.drop_last());
    }
}

/// Reading one character.
pub proof fn lemma_read_one(r: Reader, c: char)
    ensures
        read(r, seq![c]) == read_char(r, c),
{
    assert(seq![c].drop_last() == Seq::<char>::empty());
    assert(read(r, seq![c].drop_last()) == r);
}

/// Outside quotes, plain characters are added to the word as they stand.
pub proof fn lemma_read_plain(r: Reader, word: Seq<char>)
    requires
        r.mode is Bare,
        is_plain_word(word),
    ensures
        read(r, word) == (Reader { word: Some(so_far(r) + word), ..r }),
    decreases word.len(),
{
    let init = word.drop_last();
    assert(is_plain(word[word.len() - 1]));
    if init.len() == 0 {
        assert(read(r, init) == r);
        assert(so_far(r).push(word.last()) == so_far(r) + word);
    } else {
        assert(is_plain_word(init)) by {
            assert forall|i: int| 0 <= i < init.len() implies is_plain(#[trigger] init[i]) by {
                assert(init[i] == word[i]);
            }
        }
        lemma_read_plain(r, init);
        assert((so_far(r) + init).push(word.last()) == so_far(r) + word);
    }
}

/// Between single quotes, the quoted form of a text adds the text itself to
/// the word and leaves the shell between the quotes.
pub proof fn lemma_read_quoted_body(r: Reader, word: Seq<char>)
    requires
        r.mode is Quoted,
        r.word is Some,
    ensures
        read(r, quoted_body(word)) == (Reader { word: Some(so_far(r) + word), ..r }),
    decreases word.len(),
{
    if word.len() == 0 {
        assert(so_far(r) + word == so_far(r));
    } else {
        let init = word.drop_last();
        let c = word.last();
        lemma_read_quoted_body(r, init);
        lemma_read_concat(r, quoted_body(init), quoted_char(c));
        let mid = Reader { word: Some(so_far(r) + init), ..r };
        let text = so_far(r) + init;
        assert(text.push(c) == so_far(r) + word);
        if c == '\'' || c == '!' {
            let q = seq!['\'', '\\', c, '\''];
            let q3 = q.drop_last();
            let q2 = q3.drop_last();
            let q1 = q2.drop_last();
            assert(q3 == seq!['\'', '\\', c]);
            assert(q2 == seq!['\'', '\\']);
            assert(q1 == seq!['\'']);
            lemma_read_one(mid, '\'');
            assert(read(mid, q1) == (Reader { mode: Quoting::Bare, ..mid }));
            assert(read(mid, q2) == (Reader { mode: Quoting::Escaped, ..mid }));
            assert(read(mid, q3) == (Reader {
                word: Some(text.push(c)),
                mode: Quoting::Bare,
                ..mid
            }));
            assert(read(mid, q) == (Reader { word: Some(text.push(c)), ..mid }));
        } else {
            lemma_read_one(mid, c);
        }
    }
}

/// Outside quotes and between words, the quoted form of a word is read as
/// that word.
pub proof fn lemma_read_quoted(r: Reader, word: Seq<char>)
    requires
        r.mode is Bare,
        r.word is None,
    ensures
        read(r, quoted(word)) == (Reader { word: Some(word), ..r }),
{
    if is_plain_word(word) {
        lemma_read_plain(r, word);
        assert(so_far(r) + word == word);
    } else {
        let open = seq!['\''];
        let inside = Reader { word: Some(Seq::<char>::empty()), mode: Quoting::Quoted, ..r };
        lemma_read_one(r, '\'');
        lemma_read_concat(r, open, quoted_body(word));
        lemma_read_quoted_body(inside, word);
        assert(so_far(inside) + word == word);
        lemma_read_concat(r, open + quoted_body(word), open);
        let closing = Reader { word: Some(word), mode: Quoting::Quoted, ..r };
        lemma_read_one(closing, '\'');
    }
}

/// After a command line of at least one word, the shell has completed all
/// words but the last and is reading the last, outside quotes.
pub proof fn lemma_read_command_line(words: Seq<Seq<char>>)
    requires
        words.len() > 0,
    ensures
        read(fresh(), command_line(words)) == (Reader {
            done: words.drop_last(),
            word: Some(words.last()),
            mode: Quoting::Bare,
        }),
    decreases words.len(),
{
    if words.len() == 1 {
        lemma_read_quoted(fresh(), words[0]);
        assert(words.drop_last() == Seq::<Seq<char>>::empty());
    } else {
        let init = words.drop_last();
        lemma_read_command_line(init);
        let blank = seq![' '];
        lemma_read_concat(fresh(), command_line(init), blank);
        let after_init = Reader {
            done: init.drop_last(),
            word: Some(init.last()),
            mode: Quoting::Bare,
        };
        lemma_read_one(after_init, ' ');
        assert(init.drop_last().push(init.last()) == init);
        let between = Reader { done: init, word: None, mode: Quoting::Bare };
        lemma_read_concat(fresh(), command_line(init) + blank, quoted(words.last()));
        lemma_read_quoted(between, words.last());
    }
}

/// The remote shell splits the command line into the very words that it
/// was made of: quoting loses nothing and adds nothing, whatever the words
/// hold.
pub proof fn theorem_shell_reads_the_words_back(words: Seq<Seq<char>>)
    ensures
        shell_words(command_line(words)) == words,
{
    if words.len() == 0 {
        assert(read(fresh(), command_line(words)) == fresh());
    } else {
        lemma_read_command_line(words);
        assert(words.drop_last().push(words.last()) == words);
    }
}

} // verus!
