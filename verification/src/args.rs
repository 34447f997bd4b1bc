//! The command line: the words of the command to run and monitor.

use vstd::prelude::*;

verus! {

/// The words joined with a space between each two.
pub open spec fn join_words(words: Seq<Seq<char>>) -> Seq<char>
    decreases words.len(),
{
    if words.len() == 0 {
        Seq::empty()
    } else if words.len() == 1 {
        words[0]
    } else {
        join_words(words.drop_last()) + " "@ + words.last()
    }
}

/// The texts of the given strings.
pub open spec fn texts(strings: Seq<String>) -> Seq<Seq<char>> {
    strings.map_values(|s: String| s@)
}


/// The pieces of `s` between its spaces, in order (`str::split(' ')`): one
/// piece more than there are spaces, empty pieces included.
pub open spec fn split_at_spaces(s: Seq<char>) -> Seq<Seq<char>>
    decreases s.len(),
{
    if s.len() == 0 {
        seq![Seq::empty()]
    } else {
        let before = split_at_spaces(s.drop_last());
        if s.last() == ' ' {
            before.push(Seq::empty())
        } else {
            before.update(before.len() - 1, before.last().push(s.last()))
        }
    }
}

/// Whether `word` holds no space.
pub open spec fn has_no_space(word: Seq<char>) -> bool {
    forall|j: int| 0 <= j < word.len() ==> word[j] != ' '
}

proof fn lemma_split_nonempty(s: Seq<char>)
    ensures
        split_at_spaces(s).len() > 0,
    decreases s.len(),
{
    if s.len() > 0 {
        lemma_split_nonempty(s.drop_last());
    }
}

/// Appending text without spaces extends the last piece.
proof fn lemma_split_append_word(prefix: Seq<char>, word: Seq<char>)
    requires
        has_no_space(word),
    ensures
        split_at_spaces(prefix + word) == split_at_spaces(prefix).update(
            split_at_spaces(prefix).len() - 1,
            split_at_spaces(prefix).last() + word,
        ),
    decreases word.len(),
{
    lemma_split_nonempty(prefix);
    let pieces = split_at_spaces(prefix);
    if word.len() == 0 {
        assert(prefix + word =~= prefix);
        assert(pieces.last() + word =~= pieces.last());
        assert(pieces.update(pieces.len() - 1, pieces.last()) =~= pieces);
    } else {
        let shorter = word.drop_last();
        assert forall|j: int| 0 <= j < shorter.len() implies shorter[j] != ' ' by {
            assert(shorter[j] == word[j]);
        }
        lemma_split_append_word(prefix, shorter);
        let whole = prefix + word;
        assert(whole.drop_last() =~= prefix + shorter);
        assert(whole.last() == word.last());
        assert(word.last() != ' ');
        let before = split_at_spaces(prefix + shorter);
        assert(before == pieces.update(pieces.len() - 1, pieces.last() + shorter));
        assert(before.last() == pieces.last() + shorter);
        assert((pieces.last() + shorter).push(word.last()) =~= pieces.last() + word);
        assert(before.update(before.len() - 1, before.last().push(word.last())) =~= pieces.update(
            pieces.len() - 1,
            pieces.last() + word,
        ));
    }
}

/// Splitting the joined words at each space gives the words back, when
/// there is at least one word and no word holds a space.
pub proof fn lemma_split_join_words(words: Seq<Seq<char>>)
    requires
        words.len() > 0,
        forall|k: int| 0 <= k < words.len() ==> has_no_space(#[trigger] words[k]),
    ensures
        split_at_spaces(join_words(words)) == words,
    decreases words.len(),
{
    reveal_strlit(" ");
    if words.len() == 1 {
        lemma_split_append_word(Seq::empty(), words[0]);
        assert(Seq::<char>::empty() + words[0] =~= words[0]);
        assert(split_at_spaces(Seq::<char>::empty()) == seq![Seq::<char>::empty()]);
        assert(seq![Seq::<char>::empty()].update(0, Seq::<char>::empty() + words[0]) =~= words);
    } else {
        let init = words.drop_last();
        assert forall|k: int| 0 <= k < init.len() implies has_no_space(#[trigger] init[k]) by {
            assert(init[k] == words[k]);
        }
        lemma_split_join_words(init);
        let spaced = join_words(init) + " "@;
        assert(" "@ =~= seq![' ']);
        assert(spaced.drop_last() =~= join_words(init));
        assert(spaced.last() == ' ');
        assert(split_at_spaces(spaced) == init.push(Seq::empty()));
        assert(has_no_space(words[words.len() - 1]));
        lemma_split_append_word(spaced, words.last());
        let pieces = init.push(Seq::<char>::empty());
        assert(pieces.last() + words.last() =~= words.last());
        assert(pieces.update(pieces.len() - 1, pieces.last() + words.last()) =~= words);
    }
}

/// For a command line of at least one argument, none holding a space,
/// splitting the joined line at each space gives the arguments back.
pub proof fn lemma_concat_args_round_trip(args: Seq<String>)
    requires
        args.len() > 0,
        forall|k: int| 0 <= k < args.len() ==> has_no_space(#[trigger] args[k]@),
    ensures
        split_at_spaces(join_words(texts(args))) == texts(args),
{
    assert forall|k: int| 0 <= k < texts(args).len() implies has_no_space(
        #[trigger] texts(args)[k],
    ) by {
        assert(texts(args)[k] == args[k]@);
    }
    lemma_split_join_words(texts(args));
}

/// The positional arguments: the program to run and its own arguments.
#[derive(Debug)]
pub struct Args {
    pub positional_args: Vec<String>,
}

impl Args {
    /// The command line made of these words.
    pub fn new(positional_args: Vec<String>) -> (args: Args)
        ensures
            args.positional_args@ == positional_args@,
    {
        Args { positional_args }
    }

    /// The command line as one text, the arguments separated by spaces.
    pub fn get_concat_args(&self) -> (line: String)
        ensures
            line@ == join_words(texts(self.positional_args@)),
    {
        let ghost words = texts(self.positional_args@);
        let mut line = String::new();
        let mut i: usize = 0;
        while i < self.positional_args.len()
            invariant
                0 <= i <= self.positional_args@.len(),
                words == texts(self.positional_args@),
                line@ == join_words(words.take(i as int)),
            decreases self.positional_args@.len() - i,
        {
            let ghost before = line@;
            assert(words.take(i + 1).drop_last() == words.take(i as int));
            assert(words.take(i + 1).last() == self.positional_args@[i as int]@);
            if i > 0 {
                line.append(" ");
            }
            line.append(self.positional_args[i].as_str());
            if i == 0 {
                assert(line@ == words.take(1)[0]);
            }
            i = i + 1;
        }
        assert(words.take(self.positional_args@.len() as int) == words);
        line
    }

    /// The program to run: the first argument.
    pub fn program(&self) -> (program: &String)
        requires
            self.positional_args@.len() > 0,
        ensures
            *program == self.positional_args@[0],
    {
        &self.positional_args[0]
    }

    /// The arguments of the program: all but the first.
    pub fn program_arguments(&self) -> (arguments: Vec<String>)
        requires
            self.positional_args@.len() > 0,
        ensures
            arguments@ == self.positional_args@.subrange(1, self.positional_args@.len() as int),
    {
        let mut arguments: Vec<String> = Vec::new();
        let mut i: usize = 1;
        while i < self.positional_args.len()
            invariant
                1 <= i <= self.positional_args@.len(),
                arguments@ == self.positional_args@.subrange(1, i as int),
            decreases self.positional_args@.len() - i,
        {
            arguments.push(self.positional_args[i].clone());
            i = i + 1;
        }
        arguments
    }
}

} // verus!
