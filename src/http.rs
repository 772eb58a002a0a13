//! What a streamed HTTP response tells the art fetcher: the status of its
//! last status line and the body received so far.
use vstd::prelude::*;
use crate::bytes::{append_bytes, copy_bytes};
use crate::mpris::Event;

verus! {

/// The only status that counts as success.
pub const STATUS_OK: u16 = 200;

/// `b` is an ASCII decimal digit.
pub open spec fn is_digit(b: u8) -> bool {
    48 <= b <= 57
}

/// Index of the first space of `line` at or after `from`.
pub open spec fn first_space(line: Seq<u8>, from: int) -> Option<int>
    decreases line.len() - from,
{
    if from < 0 || from >= line.len() {
        None
    } else if line[from] == 32 {
        Some(from)
    } else {
        first_space(line, from + 1)
    }
}

/// The status code of a header line, where it is a status line: `HTTP/`,
/// a version, a space, three digits, then a space, a line break or the end.
pub open spec fn status_code(line: Seq<u8>) -> Option<u16> {
    if line.len() >= 5 && line.take(5) == seq![72u8, 84u8, 84u8, 80u8, 47u8] {
        match first_space(line, 5) {
            Some(sp) => if sp + 3 < line.len() && is_digit(line[sp + 1]) && is_digit(line[sp + 2])
                && is_digit(line[sp + 3]) && (sp + 4 == line.len() || line[sp + 4] == 32
                || line[sp + 4] == 13 || line[sp + 4] == 10) {
                Some(
                    (100 * (line[sp + 1] - 48) + 10 * (line[sp + 2] - 48) + (line[sp + 3]
                        - 48)) as u16,
                )
            } else {
                None
            },
            None => None,
        }
    } else {
        None
    }
}

/// Reads the status code of a header line.
pub fn parse_status_line(line: &[u8]) -> (r: Option<u16>)
    ensures
        r == status_code(line@),
{
    let n = line.len();
    if n < 5 || line[0] != 72 || line[1] != 84 || line[2] != 84 || line[3] != 80 || line[4]
        != 47 {
        proof {
            if n >= 5 {
                assert(line@.take(5)[0] == line@[0]);
                assert(line@.take(5)[1] == line@[1]);
                assert(line@.take(5)[2] == line@[2]);
                assert(line@.take(5)[3] == line@[3]);
                assert(line@.take(5)[4] == line@[4]);
            }
        }
        return None;
    }
    assert(line@.take(5) =~= seq![72u8, 84u8, 84u8, 80u8, 47u8]);
    let mut sp: usize = 5;
    while sp < n && line[sp] != 32
        invariant
            n == line@.len(),
            5 <= sp <= n,
            first_space(line@, 5) == first_space(line@, sp as int),
        decreases n - sp,
    {
        sp = sp + 1;
    }
    if sp == n {
        return None;
    }
    if n - sp <= 3 {
        return None;
    }
    let d1 = line[sp + 1];
    let d2 = line[sp + 2];
    let d3 = line[sp + 3];
    if d1 < 48 || d1 > 57 || d2 < 48 || d2 > 57 || d3 < 48 || d3 > 57 {
        return None;
    }
    if sp + 4 < n && line[sp + 4] != 32 && line[sp + 4] != 13 && line[sp + 4] != 10 {
        return None;
    }
    Some(100 * (d1 - 48) as u16 + 10 * (d2 - 48) as u16 + (d3 - 48) as u16)
}

/// Progress of one streamed download.
pub struct Response {
    status: Option<u16>,
    body: Vec<u8>,
}

impl Response {
    /// The status of the last status line seen.
    pub closed spec fn status(&self) -> Option<u16> {
        self.status
    }

    /// The body received so far.
    pub closed spec fn body(&self) -> Seq<u8> {
        self.body@
    }

    /// A download that has received nothing.
    pub fn new() -> (r: Response)
        ensures
            r.status() is None,
            r.body() == Seq::<u8>::empty(),
    {
        Response { status: None, body: Vec::new() }
    }

    /// Takes in one header line. A status line replaces the status, so that
    /// after redirects the final response's status counts.
    pub fn header_line(&mut self, line: &[u8])
        ensures
            final(self).status() == match status_code(line@) {
                Some(c) => Some(c),
                None => old(self).status(),
            },
            final(self).body() == old(self).body(),
    {
        match parse_status_line(line) {
            Some(c) => {
                self.status = Some(c);
            },
            None => {},
        }
    }

    /// Takes in a piece of the body and hands it on as an event of `source`.
    pub fn body_chunk(&mut self, source: &String, chunk: &[u8]) -> (r: Event)
        ensures
            final(self).status() == old(self).status(),
            final(self).body() == old(self).body() + chunk@,
            r matches Event::ArtChunk(k, b) && k@ == source@ && b@ == chunk@,
    {
        append_bytes(&mut self.body, chunk);
        Event::ArtChunk(source.clone(), copy_bytes(chunk))
    }

    /// The body, where the transfer went through and the final status is
    /// 200; nothing otherwise.
    pub fn outcome(self, transfer_ok: bool) -> (r: Option<Vec<u8>>)
        ensures
            r is Some <==> transfer_ok && self.status() == Some(STATUS_OK),
            r matches Some(b) ==> b@ == self.body(),
    {
        if transfer_ok && self.status == Some(STATUS_OK) {
            Some(self.body)
        } else {
            None
        }
    }
}

} // verus!
