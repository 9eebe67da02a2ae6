use vstd::prelude::*;

use crate::decimal::{decimal, push_decimal};

verus! {

/// A GDB/MI command: an operation with its options and parameters.
pub struct MiCommand {
    pub operation: String,
    pub options: Vec<String>,
    pub parameters: Vec<String>,
}

/// Each word preceded by one space.
pub open spec fn spaced(words: Seq<Seq<char>>) -> Seq<char>
    decreases words.len(),
{
    if words.len() == 0 {
        Seq::empty()
    } else {
        spaced(words.drop_last()) + seq![' '] + words.last()
    }
}

/// The GDB/MI input line of a command with the given token:
/// `token "-" operation ( " " option )* [ " --" ( " " parameter )* ] nl`.
pub open spec fn command_line(
    token: u64,
    operation: Seq<char>,
    options: Seq<Seq<char>>,
    parameters: Seq<Seq<char>>,
) -> Seq<char> {
    decimal(token as nat) + seq!['-'] + operation + spaced(options) + (if parameters.len() > 0 {
        seq![' ', '-', '-'] + spaced(parameters)
    } else {
        Seq::empty()
    }) + seq!['\n']
}

fn append_spaced(out: &mut String, words: &Vec<String>)
    ensures
        final(out)@ == old(out)@ + spaced(words.deep_view()),
{
    proof {
        reveal_strlit(" ");
    }
    let mut i: usize = 0;
    assert(words.deep_view().take(0) =~= Seq::<Seq<char>>::empty());
    while i < words.len()
        invariant
            i <= words.len(),
            out@ == old(out)@ + spaced(words.deep_view().take(i as int)),
            " "@ == seq![' '],
        decreases words.len() - i,
    {
        out.append(" ");
        out.append(words[i].as_str());
        let ghost t = words.deep_view().take(i + 1);
        assert(t.drop_last() =~= words.deep_view().take(i as int));
        assert(t.last() == words[i as int]@);
        assert(out@ =~= old(out)@ + spaced(t));
        i = i + 1;
    }
    assert(words.deep_view().take(words.len() as int) =~= words.deep_view());
}

impl MiCommand {
    /// Whether the command is empty, that is, has no operation.
    pub open spec fn spec_is_empty(&self) -> bool {
        self.operation@.len() == 0
    }

    /// `-thread-info`, for one thread or for all of them.
    pub fn thread_info(thread_id: Option<u32>) -> (c: MiCommand)
        ensures
            c.operation@ == "thread-info"@,
            c.options@.len() == 0,
            c.parameters.deep_view() == match thread_id {
                Some(id) => seq![decimal(id as nat)],
                None => Seq::<Seq<char>>::empty(),
            },
    {
        let mut parameters: Vec<String> = Vec::new();
        match thread_id {
            Some(id) => {
                let mut p = String::new();
                push_decimal(&mut p, id as u64);
                parameters.push(p);
            },
            None => {},
        }
        proof {
            assert(parameters.deep_view() =~= match thread_id {
                Some(id) => seq![decimal(id as nat)],
                None => Seq::<Seq<char>>::empty(),
            });
        }
        MiCommand { operation: String::from_str("thread-info"), options: Vec::new(), parameters }
    }

    /// The line that sends this command to GDB under the given token.
    pub fn interpreter_string(&self, token: u64) -> (line: String)
        ensures
            line@ == command_line(
                token,
                self.operation@,
                self.options.deep_view(),
                self.parameters.deep_view(),
            ),
    {
        proof {
            reveal_strlit("-");
            reveal_strlit(" --");
            reveal_strlit("\n");
        }
        let mut line = String::new();
        push_decimal(&mut line, token);
        line.append("-");
        line.append(self.operation.as_str());
        append_spaced(&mut line, &self.options);
        let ghost before_params = line@;
        if self.parameters.len() > 0 {
            line.append(" --");
            append_spaced(&mut line, &self.parameters);
        }
        assert(line@ =~= before_params + (if self.parameters.deep_view().len() > 0 {
            seq![' ', '-', '-'] + spaced(self.parameters.deep_view())
        } else {
            Seq::<char>::empty()
        }));
        line.append("\n");
        line
    }
}


/// The length of the words, each counted with the space before it.
pub open spec fn words_len(words: Seq<Seq<char>>) -> nat
    decreases words.len(),
{
    if words.len() == 0 {
        0
    } else {
        words_len(words.drop_last()) + 1 + words.last().len()
    }
}

/// Where the `i`-th word starts in the written words, past its space.
pub open spec fn word_start(words: Seq<Seq<char>>, i: int) -> int {
    words_len(words.take(i)) as int + 1
}

/// The `i`-th word stands, behind its space, where `word_start` puts it.
pub open spec fn word_at(written: Seq<char>, words: Seq<Seq<char>>, i: int) -> bool {
    &&& 1 <= word_start(words, i)
    &&& word_start(words, i) + words[i].len() <= written.len()
    &&& written[word_start(words, i) - 1] == ' '
    &&& written.subrange(word_start(words, i), word_start(words, i) + words[i].len()) == words[i]
}

/// The `i`-th word stands, behind its space, at `word_start` past `base`
/// in `line`.
pub open spec fn word_in_line(line: Seq<char>, base: int, words: Seq<Seq<char>>, i: int) -> bool {
    &&& line[base + word_start(words, i) - 1] == ' '
    &&& line.subrange(base + word_start(words, i), base + word_start(words, i) + words[i].len())
        == words[i]
}

proof fn lemma_spaced_reads_back(words: Seq<Seq<char>>)
    ensures
        spaced(words).len() == words_len(words),
        forall|i: int| 0 <= i < words.len() ==> #[trigger] word_at(spaced(words), words, i),
    decreases words.len(),
{
    if words.len() > 0 {
        let init = words.drop_last();
        lemma_spaced_reads_back(init);
        let sp = spaced(words);
        assert(sp == spaced(init) + seq![' '] + words.last());
        assert forall|i: int| 0 <= i < words.len() implies #[trigger] word_at(sp, words, i) by {
            if i < init.len() {
                assert(words.take(i) =~= init.take(i));
                assert(words[i] == init[i]);
                assert(word_at(spaced(init), init, i));
                let st = word_start(init, i);
                assert(sp[st - 1] == spaced(init)[st - 1]);
                assert(sp.subrange(st, st + words[i].len()) =~= spaced(init).subrange(
                    st,
                    st + words[i].len(),
                ));
            } else {
                assert(words.take(i) =~= init);
                assert(sp.subrange(word_start(words, i), word_start(words, i) + words[i].len())
                    =~= words.last());
            }
        }
    } else {
        assert(spaced(words).len() == 0);
    }
}

/// The line of a command reads back as what it was made of: the decimal
/// writing of the token, `-`, the operation, each option behind a space, and,
/// when there are parameters, ` --` followed by every parameter, in order,
/// each behind a space; then a newline, and nothing else.
pub proof fn law_command_line_reads_back(
    token: u64,
    operation: Seq<char>,
    options: Seq<Seq<char>>,
    parameters: Seq<Seq<char>>,
)
    ensures
        ({
            let line = command_line(token, operation, options, parameters);
            let t = decimal(token as nat);
            let head: int = t.len() as int + 1 + operation.len();
            let tail: int = head + words_len(options);
            &&& line.subrange(0, t.len() as int) == t
            &&& line[t.len() as int] == '-'
            &&& line.subrange(t.len() as int + 1, head) == operation
            &&& forall|i: int|
                0 <= i < options.len() ==> #[trigger] word_in_line(line, head, options, i)
            &&& parameters.len() > 0 ==> line.subrange(tail, tail + 3) == seq![' ', '-', '-']
            &&& forall|i: int|
                0 <= i < parameters.len() ==> #[trigger] word_in_line(line, tail + 3, parameters, i)
            &&& line.len() == tail + (if parameters.len() > 0 {
                3 + words_len(parameters)
            } else {
                0
            }) + 1
            &&& line.last() == '\n'
        }),
{
    lemma_spaced_reads_back(options);
    lemma_spaced_reads_back(parameters);
    let line = command_line(token, operation, options, parameters);
    let t = decimal(token as nat);
    let head: int = t.len() as int + 1 + operation.len();
    let tail: int = head + words_len(options);
    let front = t + seq!['-'] + operation;
    let ps = if parameters.len() > 0 {
        seq![' ', '-', '-'] + spaced(parameters)
    } else {
        Seq::<char>::empty()
    };
    let sp = spaced(options);
    let a1 = front + sp;
    let a2 = a1 + ps;
    assert(line == a2 + seq!['\n']);
    assert(front.len() == head);
    assert(line.subrange(0, t.len() as int) =~= t);
    assert(line[t.len() as int] == front[t.len() as int]);
    assert(line[t.len() as int] == '-');
    assert(line.subrange(t.len() as int + 1, head) =~= operation);
    assert(a1.len() == tail);
    assert(ps.len() == (if parameters.len() > 0 {
        3 + words_len(parameters)
    } else {
        0
    }));
    assert(line.last() == '\n');
    assert forall|i: int| 0 <= i < options.len() implies #[trigger] word_in_line(
        line,
        head,
        options,
        i,
    ) by {
        assert(word_at(sp, options, i));
        let st = word_start(options, i);
        assert(line[head + st - 1] == a2[head + st - 1]);
        assert(a2[head + st - 1] == a1[head + st - 1]);
        assert(a1[head + st - 1] == sp[st - 1]);
        assert(line.subrange(head + st, head + st + options[i].len()) =~= sp.subrange(
            st,
            st + options[i].len(),
        ));
    }
    if parameters.len() > 0 {
        assert(line.subrange(tail, tail + 3) =~= seq![' ', '-', '-']);
    }
    assert forall|i: int| 0 <= i < parameters.len() implies #[trigger] word_in_line(
        line,
        tail + 3,
        parameters,
        i,
    ) by {
        let pp = spaced(parameters);
        assert(word_at(pp, parameters, i));
        let st = word_start(parameters, i);
        assert(ps == seq![' ', '-', '-'] + pp);
        assert(a1.len() == tail);
        assert(line[tail + 3 + st - 1] == a2[tail + 3 + st - 1]);
        assert(a2[tail + 3 + st - 1] == ps[3 + st - 1]);
        assert(ps[3 + st - 1] == pp[st - 1]);
        assert(line.subrange(tail + 3 + st, tail + 3 + st + parameters[i].len())
            =~= pp.subrange(st, st + parameters[i].len()));
    }
}

} // verus!
