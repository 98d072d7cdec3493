//! The request side of the protocol: the lines of a request head, the tokens
//! of the request line, and the route that they select.
//!
//! Lines are byte strings without their line ending.

use vstd::prelude::*;
use vstd::slice::slice_to_vec;
use vstd::string::*;

verus! {

/// The byte that parts the tokens of a request line.
pub const SPACE: u8 = 32;

/// Where a request goes.
#[derive(Clone, Copy, Debug, PartialEq, Eq, Structural)]
pub enum Route {
    /// `GET /healthz`
    Healthz,
    /// `GET /stats`
    Stats,
    /// `GET /metrics`
    Metrics,
    /// `GET` of any other path.
    NotFound,
    /// Any method but `GET`.
    MethodNotAllowed,
    /// No request line, or one without a path.
    BadRequest,
}

/// The bytes of a text of ASCII characters.
pub open spec fn ascii(text: Seq<char>) -> Seq<u8> {
    Seq::new(text.len(), |i: int| text[i] as u8)
}

/// The position of the first space of a line, or its length if it has none.
pub open spec fn first_space(line: Seq<u8>) -> int
    decreases line.len(),
{
    if line.len() == 0 || line[0] == SPACE {
        0
    } else {
        1 + first_space(line.subrange(1, line.len() as int))
    }
}

/// The tokens of a line: the pieces between its spaces, an empty piece
/// between two spaces that follow each other. A line of `n` spaces has
/// `n + 1` tokens.
pub open spec fn tokens(line: Seq<u8>) -> Seq<Seq<u8>>
    decreases line.len(),
{
    let at = first_space(line);
    if 0 <= at < line.len() {
        seq![line.subrange(0, at)] + tokens(line.subrange(at + 1, line.len() as int))
    } else {
        seq![line]
    }
}

/// The route that a request line selects.
pub open spec fn route_of_line(line: Seq<u8>) -> Route {
    let parts = tokens(line);
    if parts.len() < 2 {
        Route::BadRequest
    } else if parts[0] != ascii("GET"@) {
        Route::MethodNotAllowed
    } else if parts[1] == ascii("/healthz"@) {
        Route::Healthz
    } else if parts[1] == ascii("/stats"@) {
        Route::Stats
    } else if parts[1] == ascii("/metrics"@) {
        Route::Metrics
    } else {
        Route::NotFound
    }
}

/// The route that a request head selects: that of its first line.
pub open spec fn route_of(lines: Seq<Seq<u8>>) -> Route {
    if lines.len() == 0 {
        Route::BadRequest
    } else {
        route_of_line(lines[0])
    }
}

/// The head of a request: the lines before the first empty one.
pub open spec fn head_of(lines: Seq<Seq<u8>>) -> Seq<Seq<u8>>
    decreases lines.len(),
{
    if lines.len() == 0 || lines[0].len() == 0 {
        Seq::empty()
    } else {
        seq![lines[0]] + head_of(lines.subrange(1, lines.len() as int))
    }
}

/// Lines as contracts see them.
pub open spec fn line_views(lines: Seq<Vec<u8>>) -> Seq<Seq<u8>> {
    Seq::new(lines.len(), |i: int| lines[i]@)
}

/// The first space of a line lies within it or at its end, behind bytes that
/// are no spaces.
pub proof fn lemma_first_space(line: Seq<u8>)
    ensures
        0 <= first_space(line) <= line.len(),
        first_space(line) < line.len() ==> line[first_space(line)] == SPACE,
        forall|i: int| 0 <= i < first_space(line) ==> line[i] != SPACE,
    decreases line.len(),
{
    if line.len() == 0 || line[0] == SPACE {
    } else {
        let rest = line.subrange(1, line.len() as int);
        lemma_first_space(rest);
        assert forall|i: int| 0 <= i < first_space(line) implies line[i] != SPACE by {
            if i > 0 {
                assert(rest[i - 1] == line[i]);
            }
        }
    }
}

/// The first space is found where a space follows bytes that are none.
pub proof fn lemma_first_space_at(line: Seq<u8>, at: int)
    requires
        0 <= at <= line.len(),
        forall|i: int| 0 <= i < at ==> line[i] != SPACE,
        at < line.len() ==> line[at] == SPACE,
    ensures
        first_space(line) == at,
{
    lemma_first_space(line);
    let found = first_space(line);
    if found < at {
        assert(line[found] != SPACE);
    } else if at < found {
        assert(line[at] != SPACE);
    }
}

/// The head of a request is a prefix of its lines, and all of them where none
/// of them is empty.
pub proof fn lemma_head_of(lines: Seq<Seq<u8>>)
    ensures
        head_of(lines).len() <= lines.len(),
        head_of(lines) == lines.subrange(0, head_of(lines).len() as int),
        forall|i: int| 0 <= i < head_of(lines).len() ==> lines[i].len() > 0,
        head_of(lines).len() < lines.len() ==> lines[head_of(lines).len() as int].len() == 0,
    decreases lines.len(),
{
    if lines.len() == 0 || lines[0].len() == 0 {
        assert(head_of(lines) =~= lines.subrange(0, 0));
    } else {
        let rest = lines.subrange(1, lines.len() as int);
        lemma_head_of(rest);
        let n = head_of(rest).len() as int;
        assert(head_of(lines) =~= lines.subrange(0, n + 1)) by {
            assert(rest.subrange(0, n) =~= lines.subrange(1, n + 1));
        }
        assert forall|i: int| 0 <= i < head_of(lines).len() implies lines[i].len() > 0 by {
            if i > 0 {
                assert(rest[i - 1] == lines[i]);
            }
        }
        if head_of(lines).len() < lines.len() {
            assert(rest[n] == lines[n + 1]);
        }
    }
}

/// The head ends at the first empty line.
pub proof fn lemma_head_ends_at(lines: Seq<Seq<u8>>, at: int)
    requires
        0 <= at <= lines.len(),
        forall|i: int| 0 <= i < at ==> lines[i].len() > 0,
        at < lines.len() ==> lines[at].len() == 0,
    ensures
        head_of(lines) == lines.subrange(0, at),
{
    lemma_head_of(lines);
    let n = head_of(lines).len() as int;
    if n < at {
        assert(lines[n].len() > 0);
    } else if at < n {
        assert(lines[at].len() > 0);
    }
}

/// Whether two byte strings are the same.
pub fn same_bytes(a: &[u8], b: &[u8]) -> (same: bool)
    ensures
        same == (a@ == b@),
{
    if a.len() != b.len() {
        return false;
    }
    let mut i: usize = 0;
    while i < a.len()
        invariant
            i <= a.len(),
            a.len() == b.len(),
            forall|k: int| 0 <= k < i ==> a@[k] == b@[k],
        decreases a.len() - i,
    {
        if a[i] != b[i] {
            return false;
        }
        i = i + 1;
    }
    assert(a@ =~= b@);
    true
}

/// The tokens of a line.
pub fn split_on_space(line: &[u8]) -> (parts: Vec<Vec<u8>>)
    ensures
        line_views(parts@) == tokens(line@),
{
    let mut parts: Vec<Vec<u8>> = Vec::new();
    let mut token: Vec<u8> = Vec::new();
    let mut start: usize = 0;
    let mut i: usize = 0;
    proof {
        assert(line@.subrange(0, line.len() as int) =~= line@);
        assert(line_views(parts@) + tokens(line@) =~= tokens(line@));
    }
    while i < line.len()
        invariant
            start <= i <= line.len(),
            token@ == line@.subrange(start as int, i as int),
            forall|k: int| start <= k < i ==> line@[k] != SPACE,
            tokens(line@) == line_views(parts@) + tokens(
                line@.subrange(start as int, line.len() as int),
            ),
        decreases line.len() - i,
    {
        let ghost rest = line@.subrange(start as int, line.len() as int);
        if line[i] == SPACE {
            proof {
                lemma_first_space_at(rest, i - start);
                assert(rest.subrange(0, i - start) =~= token@);
                assert(rest.subrange(i - start + 1, rest.len() as int) =~= line@.subrange(
                    i + 1,
                    line.len() as int,
                ));
                assert(line_views(parts@.push(token)) =~= line_views(parts@) + seq![token@]);
            }
            parts.push(token);
            token = Vec::new();
            start = i + 1;
            i = i + 1;
            assert(token@ =~= line@.subrange(start as int, i as int));
        } else {
            token.push(line[i]);
            i = i + 1;
            assert(token@ =~= line@.subrange(start as int, i as int));
        }
    }
    proof {
        let rest = line@.subrange(start as int, line.len() as int);
        lemma_first_space_at(rest, rest.len() as int);
        assert(rest =~= token@);
        assert(line_views(parts@.push(token)) =~= line_views(parts@) + seq![token@]);
    }
    parts.push(token);
    parts
}

/// The bytes of a literal of ASCII characters.
pub(crate) fn literal(text: &'static str) -> (bytes: &'static [u8])
    requires
        is_ascii(text),
    ensures
        bytes@ == ascii(text@),
{
    broadcast use is_ascii_spec_bytes;

    text.as_bytes()
}

/// The route that a request line selects.
pub fn route_line(line: &[u8]) -> (route: Route)
    ensures
        route == route_of_line(line@),
{
    proof {
        reveal_strlit("GET");
        reveal_strlit("/healthz");
        reveal_strlit("/stats");
        reveal_strlit("/metrics");
    }
    let parts = split_on_space(line);
    assert(parts@.len() == tokens(line@).len());
    if parts.len() < 2 {
        return Route::BadRequest;
    }
    assert(parts@[0]@ == tokens(line@)[0]);
    assert(parts@[1]@ == tokens(line@)[1]);
    if !same_bytes(parts[0].as_slice(), literal("GET")) {
        Route::MethodNotAllowed
    } else if same_bytes(parts[1].as_slice(), literal("/healthz")) {
        Route::Healthz
    } else if same_bytes(parts[1].as_slice(), literal("/stats")) {
        Route::Stats
    } else if same_bytes(parts[1].as_slice(), literal("/metrics")) {
        Route::Metrics
    } else {
        Route::NotFound
    }
}

/// The head of a request while it is read: the lines so far, and whether the
/// empty line that ends the head has come.
#[derive(Debug)]
pub struct RequestHead {
    lines: Vec<Vec<u8>>,
    complete: bool,
}

impl RequestHead {
    /// The lines of the head so far.
    pub closed spec fn lines(&self) -> Seq<Seq<u8>> {
        line_views(self.lines@)
    }

    /// Whether the head has ended.
    pub closed spec fn complete(&self) -> bool {
        self.complete
    }

    /// A head of which nothing was read yet.
    pub fn new() -> (head: RequestHead)
        ensures
            head.lines() == Seq::<Seq<u8>>::empty(),
            !head.complete(),
    {
        let head = RequestHead { lines: Vec::new(), complete: false };
        assert(head.lines() =~= Seq::<Seq<u8>>::empty());
        head
    }

    /// Takes the next line that was read. An empty line ends the head, and
    /// lines that come after the end are dropped. Says whether a further line
    /// is wanted.
    pub fn push_line(&mut self, line: Vec<u8>) -> (more: bool)
        ensures
            more == !final(self).complete(),
            final(self).complete() == (old(self).complete() || line@.len() == 0),
            final(self).lines() == if final(self).complete() {
                old(self).lines()
            } else {
                old(self).lines().push(line@)
            },
    {
        if self.complete {
            return false;
        }
        if line.len() == 0 {
            self.complete = true;
            return false;
        }
        self.lines.push(line);
        assert(self.lines() =~= old(self).lines().push(line@));
        true
    }

    /// The head of a request whose lines were all read: they are taken one
    /// by one, up to the empty line that ends the head.
    pub fn from_lines(lines: &Vec<Vec<u8>>) -> (head: RequestHead)
        ensures
            head.lines() == head_of(line_views(lines@)),
            head.complete() == (head_of(line_views(lines@)).len() < lines.len()),
    {
        let ghost all = line_views(lines@);
        let mut head = RequestHead::new();
        let mut i: usize = 0;
        while i < lines.len()
            invariant
                i <= lines.len(),
                all == line_views(lines@),
                !head.complete(),
                head.lines() == all.subrange(0, i as int),
                forall|k: int| 0 <= k < i ==> all[k].len() > 0,
            decreases lines.len() - i,
        {
            let line = slice_to_vec(lines[i].as_slice());
            let more = head.push_line(line);
            if !more {
                proof {
                    lemma_head_ends_at(all, i as int);
                }
                return head;
            }
            i = i + 1;
            assert(head.lines() =~= all.subrange(0, i as int));
        }
        proof {
            lemma_head_ends_at(all, all.len() as int);
        }
        head
    }

    /// Whether the head has ended.
    pub fn is_complete(&self) -> (complete: bool)
        ensures
            complete == self.complete(),
    {
        self.complete
    }

    /// The number of lines of the head.
    pub fn line_count(&self) -> (count: usize)
        ensures
            count == self.lines().len(),
    {
        self.lines.len()
    }

    /// A line of the head.
    pub fn line(&self, at: usize) -> (line: Option<&Vec<u8>>)
        ensures
            at < self.lines().len() ==> line.is_some() && line.unwrap()@ == self.lines()[at as int],
            at >= self.lines().len() ==> line.is_none(),
    {
        if at < self.lines.len() {
            Some(&self.lines[at])
        } else {
            None
        }
    }

    /// The route that the head selects.
    pub fn route(&self) -> (route: Route)
        ensures
            route == route_of(self.lines()),
    {
        if self.lines.len() == 0 {
            Route::BadRequest
        } else {
            route_line(self.lines[0].as_slice())
        }
    }
}

} // verus!
