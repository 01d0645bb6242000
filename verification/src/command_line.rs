//! Command lines typed by hand.

use vstd::prelude::*;

use crate::text;

verus! {

/// What has been read of a command line: the words that have ended, the word
/// begun, and whether a quoted group is open.
#[verifier::ext_equal]
pub struct Scan {
    pub argv: Seq<Seq<char>>,
    pub word: Seq<char>,
    pub quoted: bool,
}

impl Scan {
    /// The word begun ends here, if there is one.
    pub open spec fn word_ended(self) -> Scan {
        if self.word.len() == 0 {
            self
        } else {
            Scan { argv: self.argv.push(self.word), word: Seq::empty(), ..self }
        }
    }

    /// One character more. A quote opens or closes a group and is dropped;
    /// white space outside a group ends a word; any other character belongs to
    /// the word.
    pub open spec fn read(self, c: char) -> Scan {
        if c == '"' {
            Scan { quoted: !self.quoted, ..self }
        } else if text::is_space(c) && !self.quoted {
            self.word_ended()
        } else {
            Scan { word: self.word.push(c), ..self }
        }
    }
}

/// What has been read after `line`.
pub open spec fn scan(line: Seq<char>) -> Scan
    decreases line.len(),
{
    if line.len() == 0 {
        Scan { argv: Seq::empty(), word: Seq::empty(), quoted: false }
    } else {
        scan(line.drop_last()).read(line.last())
    }
}

/// The words of a command line.
pub open spec fn argv(line: Seq<char>) -> Seq<Seq<char>> {
    scan(line).word_ended().argv
}

/// Splits a command line into argv, honoring double-quoted groups.
///
/// No shell is involved when the command runs, so this only needs to group
/// tokens: `foo --bar "a b"` -> `["foo", "--bar", "a b"]`.
pub fn parse_command_line(line: &str) -> (words: Vec<String>)
    ensures
        words.deep_view() == argv(line@),
{
    let chars: Vec<char> = text::chars_of(line);
    let mut words: Vec<String> = Vec::new();
    let mut word: String = String::new();
    let mut quoted: bool = false;
    let mut i: usize = 0;
    assert(words.deep_view() =~= scan(line@.take(0)).argv);
    assert(word@ =~= scan(line@.take(0)).word);
    while i < chars.len()
        invariant
            i <= chars@.len(),
            chars@ == line@,
            words.deep_view() == scan(line@.take(i as int)).argv,
            word@ == scan(line@.take(i as int)).word,
            quoted == scan(line@.take(i as int)).quoted,
        decreases chars@.len() - i,
    {
        let c: char = chars[i];
        assert(line@.take(i + 1).drop_last() =~= line@.take(i as int));
        if c == '"' {
            quoted = !quoted;
        } else if text::is_whitespace(c) && !quoted {
            if !word.as_str().is_empty() {
                text::add_text(&mut words, word.as_str());
                word = String::new();
                assert(word@ =~= Seq::<char>::empty());
            }
        } else {
            word.push(c);
        }
        i += 1;
    }
    assert(line@.take(i as int) =~= line@);
    if !word.as_str().is_empty() {
        text::add_text(&mut words, word.as_str());
    }
    words
}

// ---------------------------------------------------------------------------
// Laws
// ---------------------------------------------------------------------------

/// A word that needs no quotes: not empty, no white space, no quote.
pub open spec fn is_plain(word: Seq<char>) -> bool {
    &&& word.len() > 0
    &&& forall|i: int| 0 <= i < word.len() ==> !text::is_space(#[trigger] word[i]) && word[i] != '"'
}

proof fn lemma_scan_words(line: Seq<char>)
    ensures
        forall|i: int| 0 <= i < scan(line).argv.len() ==> (#[trigger] scan(line).argv[i]).len() > 0,
        forall|i: int|
            0 <= i < scan(line).argv.len() ==> !(#[trigger] scan(line).argv[i]).contains('"'),
        !scan(line).word.contains('"'),
    decreases line.len(),
{
    if line.len() > 0 {
        let s = scan(line.drop_last());
        lemma_scan_words(line.drop_last());
        let c = line.last();
        if c != '"' && !(text::is_space(c) && !s.quoted) {
            assert forall|k: int| 0 <= k < s.word.push(c).len() implies s.word.push(c)[k]
                != '"' by {
                if k < s.word.len() {
                    assert(s.word.contains(s.word[k]));
                }
            }
        }
    }
}

/// No word is empty, and none holds a quote.
pub proof fn words_are_not_empty_and_unquoted(line: Seq<char>, i: int)
    requires
        0 <= i < argv(line).len(),
    ensures
        argv(line)[i].len() > 0,
        !argv(line)[i].contains('"'),
{
    lemma_scan_words(line);
}

proof fn lemma_scan_plain(line: Seq<char>, word: Seq<char>)
    requires
        !scan(line).quoted,
        forall|i: int| 0 <= i < word.len() ==> !text::is_space(#[trigger] word[i]) && word[i] != '"',
    ensures
        scan(line + word) == (Scan { word: scan(line).word + word, ..scan(line) }),
    decreases word.len(),
{
    if word.len() == 0 {
        assert(line + word =~= line);
        assert(scan(line).word + word =~= scan(line).word);
    } else {
        let init = word.drop_last();
        assert forall|i: int| 0 <= i < init.len() implies !text::is_space(#[trigger] init[i])
            && init[i] != '"' by {
            assert(init[i] == word[i]);
        }
        lemma_scan_plain(line, init);
        assert((line + word).drop_last() =~= line + init);
        assert((line + word).last() == word[word.len() - 1]);
        assert((scan(line).word + init).push(word.last()) =~= scan(line).word + word);
    }
}

proof fn lemma_scan_joined(words: Seq<Seq<char>>)
    requires
        words.len() > 0,
        forall|i: int| 0 <= i < words.len() ==> is_plain(#[trigger] words[i]),
    ensures
        scan(text::joined(words, " "@)) == (Scan {
            argv: words.drop_last(),
            word: words.last(),
            quoted: false,
        }),
    decreases words.len(),
{
    reveal_strlit(" ");
    let last = words.last();
    assert(is_plain(words[words.len() - 1]));
    let empty = Seq::<char>::empty();
    if words.len() == 1 {
        lemma_scan_plain(empty, last);
        assert(empty + last =~= last);
        assert(scan(empty).word + last =~= last);
        assert(text::joined(words, " "@) =~= last);
        assert(words.drop_last() =~= Seq::<Seq<char>>::empty());
    } else {
        let init = words.drop_last();
        assert forall|i: int| 0 <= i < init.len() implies is_plain(#[trigger] init[i]) by {
            assert(init[i] == words[i]);
        }
        lemma_scan_joined(init);
        assert(is_plain(words[words.len() - 2]));
        let before = text::joined(init, " "@);
        let spaced = before + " "@;
        assert(spaced.drop_last() =~= before);
        assert(scan(spaced) == scan(before).word_ended());
        assert(init.drop_last().push(init.last()) =~= init);
        lemma_scan_plain(spaced, last);
        assert(empty + last =~= last);
        assert(text::joined(words, " "@) =~= spaced + last);
    }
}

/// A command line made by joining plain words with spaces splits into the same
/// words: a recorded command that is run again unedited runs as it did.
pub proof fn joined_words_split_again(words: Seq<Seq<char>>)
    requires
        forall|i: int| 0 <= i < words.len() ==> is_plain(#[trigger] words[i]),
    ensures
        argv(text::joined(words, " "@)) == words,
{
    if words.len() == 0 {
        assert(text::joined(words, " "@) =~= Seq::<char>::empty());
        assert(argv(text::joined(words, " "@)) =~= words);
    } else {
        lemma_scan_joined(words);
        assert(is_plain(words[words.len() - 1]));
        assert(words.drop_last().push(words.last()) =~= words);
    }
}

/// A word in double quotes.
pub open spec fn in_quotes(word: Seq<char>) -> Seq<char> {
    seq!['"'] + word + seq!['"']
}

proof fn lemma_scan_group(line: Seq<char>, word: Seq<char>)
    requires
        scan(line).quoted,
        !word.contains('"'),
    ensures
        scan(line + word) == (Scan { word: scan(line).word + word, ..scan(line) }),
    decreases word.len(),
{
    if word.len() == 0 {
        assert(line + word =~= line);
        assert(scan(line).word + word =~= scan(line).word);
    } else {
        let init = word.drop_last();
        assert(word.contains(word.last()));
        assert forall|i: int| 0 <= i < init.len() implies init[i] != '"' by {
            assert(word.contains(word[i]));
        }
        lemma_scan_group(line, init);
        assert((line + word).drop_last() =~= line + init);
        assert((line + word).last() == word.last());
        assert((scan(line).word + init).push(word.last()) =~= scan(line).word + word);
    }
}

proof fn lemma_scan_in_quotes(line: Seq<char>, word: Seq<char>)
    requires
        !scan(line).quoted,
        !word.contains('"'),
    ensures
        scan(line + in_quotes(word)) == (Scan { word: scan(line).word + word, ..scan(line) }),
{
    let opened = line.push('"');
    assert(opened.drop_last() =~= line);
    lemma_scan_group(opened, word);
    let whole = line + in_quotes(word);
    assert(whole.drop_last() =~= opened + word);
    assert(whole.last() == '"');
}

/// Quotes keep a group together whatever white space it holds: the words that
/// were quoted come out as they were.
pub proof fn quoted_words_split_again(words: Seq<Seq<char>>)
    requires
        forall|i: int| 0 <= i < words.len() ==> (#[trigger] words[i]).len() > 0,
        forall|i: int| 0 <= i < words.len() ==> !(#[trigger] words[i]).contains('"'),
    ensures
        argv(text::joined(words.map_values(|w: Seq<char>| in_quotes(w)), " "@)) == words,
    decreases words.len(),
{
    reveal_strlit(" ");
    let f = |w: Seq<char>| in_quotes(w);
    let quoted = words.map_values(f);
    let empty = Seq::<char>::empty();
    if words.len() == 0 {
        assert(text::joined(quoted, " "@) =~= empty);
        assert(argv(text::joined(quoted, " "@)) =~= words);
    } else {
        let init = words.drop_last();
        let last = words.last();
        assert(last == words[words.len() - 1]);
        assert forall|i: int| 0 <= i < init.len() implies (#[trigger] init[i]).len() > 0
            && !init[i].contains('"') by {
            assert(init[i] == words[i]);
        }
        quoted_words_split_again(init);
        assert(quoted.drop_last() =~= init.map_values(f));
        let before = text::joined(init.map_values(f), " "@);
        let spaced = if words.len() == 1 {
            empty
        } else {
            before + " "@
        };
        if words.len() > 1 {
            assert(spaced.drop_last() =~= before);
            lemma_scan_closed(init);
            assert(scan(spaced) == scan(before).word_ended());
        } else {
            assert(init =~= Seq::<Seq<char>>::empty());
            assert(scan(spaced).argv =~= init);
        }
        lemma_scan_in_quotes(spaced, last);
        assert(text::joined(quoted, " "@) =~= spaced + in_quotes(last));
        assert(empty + last =~= last);
        assert(init.push(last) =~= words);
    }
}

proof fn lemma_scan_closed(words: Seq<Seq<char>>)
    requires
        forall|i: int| 0 <= i < words.len() ==> !(#[trigger] words[i]).contains('"'),
    ensures
        !scan(text::joined(words.map_values(|w: Seq<char>| in_quotes(w)), " "@)).quoted,
    decreases words.len(),
{
    reveal_strlit(" ");
    let f = |w: Seq<char>| in_quotes(w);
    let quoted = words.map_values(f);
    let empty = Seq::<char>::empty();
    if words.len() > 0 {
        let init = words.drop_last();
        let last = words.last();
        assert(last == words[words.len() - 1]);
        assert forall|i: int| 0 <= i < init.len() implies !(#[trigger] init[i]).contains('"') by {
            assert(init[i] == words[i]);
        }
        lemma_scan_closed(init);
        assert(quoted.drop_last() =~= init.map_values(f));
        let before = text::joined(init.map_values(f), " "@);
        let spaced = if words.len() == 1 {
            empty
        } else {
            before + " "@
        };
        if words.len() > 1 {
            assert(spaced.drop_last() =~= before);
        }
        lemma_scan_in_quotes(spaced, last);
        assert(text::joined(quoted, " "@) =~= spaced + in_quotes(last));
    }
}

/// A piece of a word: its characters, quoted or plain.
pub open spec fn written(quoted: bool, piece: Seq<char>) -> Seq<char> {
    if quoted {
        in_quotes(piece)
    } else {
        piece
    }
}

/// The pieces one behind the other, as they are written.
pub open spec fn written_all(pieces: Seq<(bool, Seq<char>)>) -> Seq<char>
    decreases pieces.len(),
{
    if pieces.len() == 0 {
        Seq::empty()
    } else {
        written_all(pieces.drop_last()) + written(pieces.last().0, pieces.last().1)
    }
}

/// The characters of the pieces, one behind the other.
pub open spec fn meant_by(pieces: Seq<(bool, Seq<char>)>) -> Seq<char>
    decreases pieces.len(),
{
    if pieces.len() == 0 {
        Seq::empty()
    } else {
        meant_by(pieces.drop_last()) + pieces.last().1
    }
}

/// No quote stands in a piece, and white space only in a quoted one.
pub open spec fn are_pieces(pieces: Seq<(bool, Seq<char>)>) -> bool {
    forall|i: int, k: int|
        #![trigger pieces[i].1[k]]
        0 <= i < pieces.len() && 0 <= k < pieces[i].1.len() ==> pieces[i].1[k] != '"' && (
        pieces[i].0 || !text::is_space(pieces[i].1[k]))
}

proof fn lemma_scan_pieces(pieces: Seq<(bool, Seq<char>)>)
    requires
        are_pieces(pieces),
    ensures
        scan(written_all(pieces)) == (Scan {
            argv: Seq::empty(),
            word: meant_by(pieces),
            quoted: false,
        }),
    decreases pieces.len(),
{
    if pieces.len() > 0 {
        let init = pieces.drop_last();
        let (quoted, piece) = pieces.last();
        assert(pieces[pieces.len() - 1] == pieces.last());
        assert forall|i: int, k: int|
            #![trigger init[i].1[k]]
            0 <= i < init.len() && 0 <= k < init[i].1.len() implies init[i].1[k] != '"' && (
        init[i].0 || !text::is_space(init[i].1[k])) by {
            assert(init[i] == pieces[i]);
            assert(pieces[i].1[k] != '"');
        }
        lemma_scan_pieces(init);
        assert forall|k: int| 0 <= k < piece.len() implies #[trigger] piece[k] != '"' && (quoted
            || !text::is_space(piece[k])) by {
            assert(pieces[pieces.len() - 1].1[k] != '"');
        }
        if quoted {
            assert(!piece.contains('"'));
            lemma_scan_in_quotes(written_all(init), piece);
        } else {
            lemma_scan_plain(written_all(init), piece);
        }
    }
}

/// Pieces written one behind the other, quoted or not, are one word: its
/// characters are theirs, and the quotes are none of it. Without a character there
/// is no word. A quoted piece whose closing quote is missing counts as well.
pub proof fn pieces_make_one_word(pieces: Seq<(bool, Seq<char>)>, open: Seq<char>)
    requires
        are_pieces(pieces),
        !open.contains('"'),
    ensures
        meant_by(pieces).len() > 0 ==> argv(written_all(pieces)) == seq![meant_by(pieces)],
        meant_by(pieces).len() == 0 ==> argv(written_all(pieces)) == Seq::<Seq<char>>::empty(),
        meant_by(pieces).len() + open.len() > 0 ==> argv(written_all(pieces).push('"') + open)
            == seq![meant_by(pieces) + open],
{
    lemma_scan_pieces(pieces);
    let line = written_all(pieces);
    assert(argv(line) =~= if meant_by(pieces).len() > 0 {
        seq![meant_by(pieces)]
    } else {
        Seq::empty()
    });
    assert(line.push('"').drop_last() =~= line);
    lemma_scan_group(line.push('"'), open);
    if meant_by(pieces).len() + open.len() > 0 {
        assert(argv(line.push('"') + open) =~= seq![meant_by(pieces) + open]);
    }
}

/// The number of quotes in a line.
pub open spec fn quotes(line: Seq<char>) -> nat
    decreases line.len(),
{
    if line.len() == 0 {
        0
    } else if line.last() == '"' {
        quotes(line.drop_last()) + 1
    } else {
        quotes(line.drop_last())
    }
}

proof fn lemma_quotes(line: Seq<char>)
    ensures
        scan(line).quoted == (quotes(line) % 2 == 1),
    decreases line.len(),
{
    if line.len() > 0 {
        lemma_quotes(line.drop_last());
    }
}

proof fn lemma_scan_blank(line: Seq<char>, blank: Seq<char>)
    requires
        !scan(line).quoted,
        blank.len() > 0,
        forall|i: int| 0 <= i < blank.len() ==> text::is_space(#[trigger] blank[i]),
    ensures
        scan(line + blank) == scan(line).word_ended(),
    decreases blank.len(),
{
    let init = blank.drop_last();
    assert((line + blank).drop_last() =~= line + init);
    assert((line + blank).last() == blank[blank.len() - 1]);
    if init.len() == 0 {
        assert(line + init =~= line);
    } else {
        assert forall|i: int| 0 <= i < init.len() implies text::is_space(#[trigger] init[i]) by {
            assert(init[i] == blank[i]);
        }
        lemma_scan_blank(line, init);
    }
}

proof fn lemma_scan_behind(line: Seq<char>, more: Seq<char>)
    requires
        !scan(line).quoted,
        scan(line).word.len() == 0,
    ensures
        scan(line + more) == (Scan {
            argv: scan(line).argv + scan(more).argv,
            word: scan(more).word,
            quoted: scan(more).quoted,
        }),
    decreases more.len(),
{
    if more.len() == 0 {
        assert(line + more =~= line);
        assert(scan(line).argv + scan(more).argv =~= scan(line).argv);
        assert(scan(line).word =~= scan(more).word);
    } else {
        let init = more.drop_last();
        lemma_scan_behind(line, init);
        assert((line + more).drop_last() =~= line + init);
        assert((line + more).last() == more.last());
        let a = scan(line).argv;
        let s = scan(init);
        assert((a + s.argv).push(s.word) =~= a + s.argv.push(s.word));
    }
}

/// White space outside quotes separates words: the words of a line in which every
/// quote is closed, white space and another line are those of the one and then
/// those of the other. A blank line has none.
pub proof fn white_space_separates_words(line: Seq<char>, blank: Seq<char>, more: Seq<char>)
    requires
        quotes(line) % 2 == 0,
        blank.len() > 0,
        forall|i: int| 0 <= i < blank.len() ==> text::is_space(#[trigger] blank[i]),
    ensures
        argv(line + blank + more) == argv(line) + argv(more),
        argv(blank) == Seq::<Seq<char>>::empty(),
        argv(Seq::empty()) == Seq::<Seq<char>>::empty(),
{
    lemma_quotes(line);
    lemma_scan_blank(line, blank);
    lemma_scan_behind(line + blank, more);
    let s = scan(more);
    assert((argv(line) + s.argv).push(s.word) =~= argv(line) + s.argv.push(s.word));
    let e = Seq::<char>::empty();
    lemma_scan_blank(e, blank);
    assert(e + blank =~= blank);
}

} // verus!
