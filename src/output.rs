use vstd::prelude::*;

verus! {

/// One of a process's two output streams.
#[derive(Debug, Clone, Copy, PartialEq, Eq)]
pub enum Stream {
    Stdout,
    Stderr,
}

/// The result of reading one line from a stream.
#[derive(Debug, Clone, PartialEq, Eq)]
pub enum ReadResult {
    Line(String),
    /// The stream reached its end.
    Closed,
    /// Reading failed; the stream counts as closed.
    Failed,
}

/// A line for the console: which of its streams it goes to, and its text.
#[derive(Debug, Clone, PartialEq, Eq)]
pub struct ConsoleLine {
    pub stream: Stream,
    pub text: String,
}

/// The console text of a line from a service: the service's name, a colon,
/// a space, and the line.
pub open spec fn console_text(name: Seq<char>, line: Seq<char>) -> Seq<char> {
    name + seq![':', ' '] + line
}

pub fn console_line(name: &str, line: &str) -> (r: String)
    ensures
        r@ == console_text(name@, line@),
{
    let mut r = String::from_str(name);
    r.append(": ");
    proof { reveal_strlit(": "); }
    r.append(line);
    r
}

/// Which of a process's streams are still being drained.
#[derive(Debug, Clone, Copy, PartialEq, Eq)]
pub struct Drain {
    pub stdout_open: bool,
    pub stderr_open: bool,
}

impl Drain {
    pub open spec fn is_open(self, stream: Stream) -> bool {
        match stream {
            Stream::Stdout => self.stdout_open,
            Stream::Stderr => self.stderr_open,
        }
    }

    /// The end of a stream, or a failed read, stops the draining of that
    /// stream only.
    pub open spec fn next(self, stream: Stream, read: ReadResult) -> Drain {
        match read {
            ReadResult::Line(_) => self,
            _ => match stream {
                Stream::Stdout => Drain { stdout_open: false, ..self },
                Stream::Stderr => Drain { stderr_open: false, ..self },
            },
        }
    }

    pub fn new() -> (r: Drain)
        ensures
            r.stdout_open && r.stderr_open,
    {
        Drain { stdout_open: true, stderr_open: true }
    }

    /// Whether any stream is still being drained.
    pub fn draining(&self) -> (r: bool)
        ensures
            r == (self.stdout_open || self.stderr_open),
    {
        self.stdout_open || self.stderr_open
    }

    /// Takes in what a read on `stream` of service `name` gave: a line read
    /// from an open stream goes to the console on the same stream, prefixed
    /// with the name.
    pub fn take(&mut self, name: &str, stream: Stream, read: ReadResult) -> (r: Option<ConsoleLine>)
        ensures
            *final(self) == old(self).next(stream, read),
            r is Some <==> (read is Line && old(self).is_open(stream)),
            r matches Some(c) ==> (c.stream == stream && (read matches ReadResult::Line(l)
                && c.text@ == console_text(name@, l@))),
    {
        match read {
            ReadResult::Line(l) => {
                let open = match stream {
                    Stream::Stdout => self.stdout_open,
                    Stream::Stderr => self.stderr_open,
                };
                if open {
                    Some(ConsoleLine { stream, text: console_line(name, l.as_str()) })
                } else {
                    None
                }
            },
            _ => {
                match stream {
                    Stream::Stdout => self.stdout_open = false,
                    Stream::Stderr => self.stderr_open = false,
                }
                None
            },
        }
    }
}

/// What the console holds after the given lines were written to it, each
/// followed by a line break.
pub open spec fn written(lines: Seq<Seq<char>>) -> Seq<char>
    decreases lines.len(),
{
    if lines.len() == 0 {
        Seq::empty()
    } else {
        lines[0] + seq!['\n'] + written(lines.skip(1))
    }
}

/// Reads console text back line by line; `cur` is the line read so far.
pub open spec fn split_lines(t: Seq<char>, cur: Seq<char>) -> Seq<Seq<char>>
    decreases t.len(),
{
    if t.len() == 0 {
        if cur.len() == 0 {
            seq![]
        } else {
            seq![cur]
        }
    } else if t[0] == '\n' {
        seq![cur] + split_lines(t.skip(1), seq![])
    } else {
        split_lines(t.skip(1), cur.push(t[0]))
    }
}

proof fn lemma_split_one(a: Seq<char>, b: Seq<char>, cur: Seq<char>)
    requires
        !a.contains('\n'),
    ensures
        split_lines(a + seq!['\n'] + b, cur) == seq![cur + a] + split_lines(b, seq![]),
    decreases a.len(),
{
    let t = a + seq!['\n'] + b;
    if a.len() == 0 {
        assert(t[0] == '\n');
        assert(t.skip(1) =~= b);
        assert(cur + a =~= cur);
    } else {
        assert(t[0] == a[0]);
        assert(a[0] != '\n');
        let a1 = a.skip(1);
        assert(!a1.contains('\n')) by {
            if a1.contains('\n') {
                let j = choose|j: int| 0 <= j < a1.len() && a1[j] == '\n';
                assert(a[j + 1] == '\n');
            }
        }
        assert(t.skip(1) =~= a1 + seq!['\n'] + b);
        lemma_split_one(a1, b, cur.push(a[0]));
        assert(cur.push(a[0]) + a1 =~= cur + a);
    }
}

/// Lines from any number of services, written whole in whatever order they
/// arrive, read back as exactly those lines: none is split, and none is
/// merged with another.
pub proof fn lemma_line_granularity(records: Seq<(Seq<char>, Seq<char>)>)
    requires
        forall|i: int|
            0 <= i < records.len() ==> !(#[trigger] records[i]).0.contains('\n') && !records[i].1.contains(
                '\n',
            ),
    ensures
        ({
            let lines = records.map_values(|r: (Seq<char>, Seq<char>)| console_text(r.0, r.1));
            split_lines(written(lines), seq![]) == lines
        }),
    decreases records.len(),
{
    let lines = records.map_values(|r: (Seq<char>, Seq<char>)| console_text(r.0, r.1));
    if records.len() > 0 {
        let rest = records.skip(1);
        assert forall|i: int| 0 <= i < rest.len() implies !(#[trigger] rest[i]).0.contains('\n')
            && !rest[i].1.contains('\n') by {
            assert(rest[i] == records[i + 1]);
        }
        lemma_line_granularity(rest);
        let rest_lines = rest.map_values(|r: (Seq<char>, Seq<char>)| console_text(r.0, r.1));
        assert(lines.skip(1) =~= rest_lines);
        let (n, l) = records[0];
        let first = console_text(n, l);
        assert(lines[0] == first);
        assert(!first.contains('\n')) by {
            if first.contains('\n') {
                let j = choose|j: int| 0 <= j < first.len() && first[j] == '\n';
                if j < n.len() {
                    assert(n[j] == '\n');
                } else if j >= n.len() + 2 {
                    assert(l[j - n.len() - 2] == '\n');
                }
            }
        }
        lemma_split_one(first, written(rest_lines), seq![]);
        assert(seq![] + first =~= first);
        assert(lines =~= seq![first] + rest_lines);
    }
}

} // verus!
