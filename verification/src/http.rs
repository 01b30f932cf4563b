//! The small HTTP server of the results page: framing of the request that
//! a client sends, the page that lists the measured runs, and the response
//! that carries it.
use vstd::prelude::*;
use vstd::string::StringSliceAdditionalSpecFns;
use vstd::arithmetic::power::{lemma_pow_positive, pow};
use vstd::arithmetic::div_mod::lemma_div_denominator;

verus! {

broadcast use vstd::string::is_ascii_spec_bytes;

/// Size of the buffer that holds a request.
pub const REQUEST_CAPACITY: usize = 512;

/// The bytes that end a request header.
pub open spec fn header_end() -> Seq<u8> {
    seq![13u8, 10u8, 13u8, 10u8]
}

/// Whether `s` holds `\r\n\r\n` anywhere.
pub open spec fn has_header_end(s: Seq<u8>) -> bool {
    exists|i: int| 0 <= i && i + 4 <= s.len() && #[trigger] s.subrange(i, i + 4) == header_end()
}

/// Whether the four bytes of `s` from `i` on are `\r\n\r\n`.
fn header_end_at(s: &Vec<u8>, i: usize) -> (r: bool)
    requires
        i + 4 <= s.len(),
    ensures
        r == (s@.subrange(i as int, i + 4) == header_end()),
{
    let r = s[i] == 13 && s[i + 1] == 10 && s[i + 2] == 13 && s[i + 3] == 10;
    assert(r == (s@.subrange(i as int, i + 4) =~= header_end()));
    r
}

/// Whether `s` holds `\r\n\r\n`.
pub fn contains_header_end(s: &Vec<u8>) -> (r: bool)
    ensures
        r == has_header_end(s@),
{
    if s.len() < 4 {
        return false;
    }
    let last: usize = s.len() - 4;
    let mut i: usize = 0;
    while i <= last
        invariant
            last + 4 == s.len(),
            i <= last + 1,
            forall|j: int| 0 <= j < i ==> #[trigger] s@.subrange(j, j + 4) != header_end(),
        decreases s@.len() - i,
    {
        if header_end_at(s, i) {
            return true;
        }
        i = i + 1;
    }
    false
}

/// Why reading a request stopped.
#[derive(Clone, Copy, Debug, PartialEq, Eq, Structural)]
pub enum ReadStop {
    /// The client closed the connection (a read gave no bytes).
    Closed,
    /// The end of the request header arrived.
    HeaderComplete,
    /// The read failed.
    Failed,
}

/// What to do after a read.
#[derive(Clone, Copy, Debug, PartialEq, Eq, Structural)]
pub enum ReadNext {
    /// Read again, into at most this many bytes.
    ReadMore(usize),
    /// Stop reading.
    Stop(ReadStop),
}

/// The bytes of a request received so far, at most `REQUEST_CAPACITY`.
pub struct RequestBuffer {
    data: Vec<u8>,
}

impl RequestBuffer {
    #[verifier::type_invariant]
    spec fn fits(self) -> bool {
        self.data@.len() <= REQUEST_CAPACITY
    }

    /// The bytes received so far.
    pub closed spec fn received(&self) -> Seq<u8> {
        self.data@
    }

    /// An empty buffer.
    pub fn new() -> (r: Self)
        ensures
            r.received() == Seq::<u8>::empty(),
    {
        RequestBuffer { data: Vec::new() }
    }

    /// How many more bytes fit.
    pub fn space(&self) -> (r: usize)
        ensures
            self.received().len() <= REQUEST_CAPACITY,
            r == REQUEST_CAPACITY - self.received().len(),
    {
        proof {
            use_type_invariant(self);
        }
        REQUEST_CAPACITY - self.data.len()
    }

    /// The bytes received so far.
    pub fn bytes(&self) -> (r: &Vec<u8>)
        ensures
            r@ == self.received(),
            r@.len() <= REQUEST_CAPACITY,
    {
        proof {
            use_type_invariant(self);
        }
        &self.data
    }

    /// Take in the outcome of one read: `None` for a failed read, else the
    /// bytes it gave. An empty read means that the client closed. Data is
    /// kept; reading stops once the buffer holds `\r\n\r\n`, and otherwise
    /// goes on into the space that is left.
    pub fn on_read(&mut self, chunk: Option<&[u8]>) -> (r: ReadNext)
        requires
            chunk matches Some(c) ==> old(self).received().len() + c@.len() <= REQUEST_CAPACITY,
        ensures
            match chunk {
                None => final(self).received() == old(self).received() && r == ReadNext::Stop(ReadStop::Failed),
                Some(c) => {
                    &&& final(self).received() == old(self).received() + c@
                    &&& c@.len() == 0 ==> r == ReadNext::Stop(ReadStop::Closed)
                    &&& c@.len() > 0 ==> r == if has_header_end(final(self).received()) {
                        ReadNext::Stop(ReadStop::HeaderComplete)
                    } else {
                        ReadNext::ReadMore((REQUEST_CAPACITY - final(self).received().len()) as usize)
                    }
                },
            },
    {
        match chunk {
            None => ReadNext::Stop(ReadStop::Failed),
            Some(c) => {
                if c.len() == 0 {
                    assert(old(self).received() + c@ =~= old(self).received());
                    return ReadNext::Stop(ReadStop::Closed);
                }
                let mut data: Vec<u8> = Vec::new();
                std::mem::swap(&mut data, &mut self.data);
                let ghost before = data@;
                let mut i: usize = 0;
                while i < c.len()
                    invariant
                        i <= c@.len(),
                        data@ == before + c@.take(i as int),
                    decreases c@.len() - i,
                {
                    data.push(c[i]);
                    assert(c@.take(i + 1) =~= c@.take(i as int).push(c@[i as int]));
                    i = i + 1;
                }
                assert(c@.take(c@.len() as int) =~= c@);
                self.data = data;
                if contains_header_end(&self.data) {
                    ReadNext::Stop(ReadStop::HeaderComplete)
                } else {
                    ReadNext::ReadMore(REQUEST_CAPACITY - self.data.len())
                }
            },
        }
    }
}

/// The decimal digits of `n`, most significant first, without leading zeros.
pub open spec fn decimal(n: nat) -> Seq<u8>
    decreases n,
{
    if n < 10 {
        seq![(48 + n) as u8]
    } else {
        decimal(n / 10).push((48 + n % 10) as u8)
    }
}

/// The number that a string of decimal digits spells.
pub open spec fn parse_decimal(s: Seq<u8>) -> nat
    decreases s.len(),
{
    if s.len() == 0 {
        0
    } else {
        parse_decimal(s.drop_last()) * 10 + (s.last() - 48) as nat
    }
}

/// Whether every byte of `s` is an ASCII digit.
pub open spec fn all_digits(s: Seq<u8>) -> bool {
    forall|i: int| 0 <= i < s.len() ==> 48 <= #[trigger] s[i] <= 57
}

/// Reading back the decimal form of a number gives the number; the form is
/// one or more ASCII digits.
pub proof fn lemma_decimal_roundtrip(n: nat)
    ensures
        parse_decimal(decimal(n)) == n,
        all_digits(decimal(n)),
        decimal(n).len() >= 1,
    decreases n,
{
    if n >= 10 {
        lemma_decimal_roundtrip(n / 10);
        assert(decimal(n).drop_last() =~= decimal(n / 10));
        assert(decimal(n).last() == (48 + n % 10) as u8);
        assert((decimal(n).last() - 48) as nat == n % 10);
        assert(n == (n / 10) * 10 + n % 10);
    } else {
        assert(seq![(48 + n) as u8].drop_last() =~= Seq::<u8>::empty());
        assert(parse_decimal(Seq::<u8>::empty()) == 0);
    }
}

/// The decimal form of `n` has exactly as many digits as `n` needs: `n` is
/// below 10 to that number, and at least 10 to one less unless `n` is 0;
/// digit `i`, counted from the most significant, is the ASCII digit of
/// `(n / 10^(len - 1 - i)) % 10`.
pub proof fn lemma_decimal_digits(n: nat)
    ensures
        decimal(n).len() >= 1,
        n < pow(10, decimal(n).len()),
        decimal(n).len() == 1 || pow(10, (decimal(n).len() - 1) as nat) <= n,
        forall|i: int|
            0 <= i < decimal(n).len() ==> #[trigger] decimal(n)[i] == 48 + (n as int / pow(10, (decimal(n).len() - 1 - i) as nat))
                % 10,
    decreases n,
{
    reveal(pow);
    if n < 10 {
        assert(pow(10, 0) == 1);
        assert(pow(10, 1) == 10 * pow(10, 0));
        assert(n as int / 1 == n);
        assert(decimal(n)[0] == 48 + (n as int / pow(10, 0)) % 10);
    } else {
        let m = n / 10;
        lemma_decimal_digits(m);
        let lm = decimal(m).len();
        let d = decimal(n);
        assert(d.len() == lm + 1);
        assert(pow(10, (lm + 1) as nat) == 10 * pow(10, lm));
        lemma_pow_positive(10, lm);
        assert(n < pow(10, (lm + 1) as nat)) by (nonlinear_arith)
            requires
                m < pow(10, lm),
                n == 10 * m + n % 10,
                n % 10 < 10,
                pow(10, (lm + 1) as nat) == 10 * pow(10, lm),
        ;
        if lm > 1 {
            assert(pow(10, (lm - 1 + 1) as nat) == 10 * pow(10, (lm - 1) as nat));
            assert(pow(10, lm) <= n) by (nonlinear_arith)
                requires
                    pow(10, (lm - 1) as nat) <= m,
                    n == 10 * m + n % 10,
                    n % 10 >= 0,
                    pow(10, lm) == 10 * pow(10, (lm - 1) as nat),
            ;
        } else {
            assert(pow(10, 1) == 10 * pow(10, 0));
        }
        assert forall|i: int| 0 <= i < d.len() implies #[trigger] d[i] == 48 + (n as int / pow(10, (d.len() - 1 - i) as nat))
            % 10 by {
            if i < lm {
                let e = (lm - 1 - i) as nat;
                lemma_pow_positive(10, e);
                assert(pow(10, (e + 1) as nat) == 10 * pow(10, e));
                assert((d.len() - 1 - i) as nat == e + 1);
                lemma_div_denominator(n as int, 10, pow(10, e));
                assert(d[i] == decimal(m)[i]);
            } else {
                assert(pow(10, 0) == 1);
                assert((d.len() - 1 - i) as nat == 0);
                assert(n as int / 1 == n);
                assert(d[i] == 48 + n % 10);
            }
        }
    }
}

/// Append the decimal digits of `n`.
pub fn push_decimal(out: &mut Vec<u8>, n: u64)
    ensures
        final(out)@ == old(out)@ + decimal(n as nat),
    decreases n,
{
    if n >= 10 {
        push_decimal(out, n / 10);
    }
    out.push(48 + (n % 10) as u8);
    proof {
        if n >= 10 {
            assert(old(out)@ + decimal((n / 10) as nat) + seq![(48 + n % 10) as u8] =~= old(out)@ + decimal(
                n as nat,
            ));
        }
    }
    assert(final(out)@ =~= old(out)@ + decimal(n as nat));
}

/// Append the bytes of `s`.
pub fn push_text(out: &mut Vec<u8>, s: &str)
    ensures
        final(out)@ == old(out)@ + s.spec_bytes(),
{
    let b = s.as_bytes();
    let mut i: usize = 0;
    while i < b.len()
        invariant
            i <= b@.len(),
            b@ == s.spec_bytes(),
            out@ == old(out)@ + b@.take(i as int),
        decreases b@.len() - i,
    {
        out.push(b[i]);
        assert(b@.take(i + 1) =~= b@.take(i as int).push(b@[i as int]));
        i = i + 1;
    }
    assert(b@.take(b@.len() as int) =~= b@);
}

/// Append `bytes`.
pub fn push_bytes(out: &mut Vec<u8>, bytes: &[u8])
    ensures
        final(out)@ == old(out)@ + bytes@,
{
    let mut i: usize = 0;
    while i < bytes.len()
        invariant
            i <= bytes@.len(),
            out@ == old(out)@ + bytes@.take(i as int),
        decreases bytes@.len() - i,
    {
        out.push(bytes[i]);
        assert(bytes@.take(i + 1) =~= bytes@.take(i as int).push(bytes@[i as int]));
        i = i + 1;
    }
    assert(bytes@.take(bytes@.len() as int) =~= bytes@);
}

/// One measured run as the page shows it: the flow rate already rendered as
/// text, and the duration in milliseconds.
pub struct RunRecord {
    pub rate: Vec<u8>,
    pub duration_ms: u64,
}

/// The line of the page for run number `i`.
pub open spec fn run_line(i: nat, rate: Seq<u8>, duration_ms: nat) -> Seq<u8> {
    "Run ".spec_bytes() + decimal(i) + ": Rate: ".spec_bytes() + rate + " DurationMs: ".spec_bytes()
        + decimal(duration_ms) + " <br />".spec_bytes()
}

/// The lines of the page for the runs, numbered from 0.
pub open spec fn run_lines(runs: Seq<RunRecord>) -> Seq<u8>
    decreases runs.len(),
{
    if runs.len() == 0 {
        seq![]
    } else {
        run_lines(runs.drop_last()) + run_line(
            (runs.len() - 1) as nat,
            runs.last().rate@,
            runs.last().duration_ms as nat,
        )
    }
}

/// The results page.
pub open spec fn page(runs: Seq<RunRecord>) -> Seq<u8> {
    "<html><body>".spec_bytes() + run_lines(runs) + "</body></html>".spec_bytes()
}

/// Render the results page: one line per run, in order.
pub fn render_page(runs: &[RunRecord]) -> (r: Vec<u8>)
    ensures
        r@ == page(runs@),
{
    let mut out: Vec<u8> = Vec::new();
    push_text(&mut out, "<html><body>");
    let ghost head = out@;
    let mut i: usize = 0;
    while i < runs.len()
        invariant
            i <= runs@.len(),
            head == "<html><body>".spec_bytes(),
            out@ == head + run_lines(runs@.take(i as int)),
        decreases runs@.len() - i,
    {
        let ghost before = out@;
        let run = &runs[i];
        push_text(&mut out, "Run ");
        push_decimal(&mut out, i as u64);
        push_text(&mut out, ": Rate: ");
        push_bytes(&mut out, run.rate.as_slice());
        push_text(&mut out, " DurationMs: ");
        push_decimal(&mut out, run.duration_ms);
        push_text(&mut out, " <br />");
        assert(runs@.take(i + 1).drop_last() =~= runs@.take(i as int));
        assert(out@ =~= before + run_line(i as nat, run.rate@, run.duration_ms as nat));
        i = i + 1;
    }
    assert(runs@.take(runs@.len() as int) =~= runs@);
    push_text(&mut out, "</body></html>");
    out
}

/// The page of no runs is the bare frame.
pub proof fn lemma_page_of_no_runs()
    ensures
        page(Seq::<RunRecord>::empty()) == "<html><body>".spec_bytes() + "</body></html>".spec_bytes(),
{
    assert("<html><body>".spec_bytes() + run_lines(Seq::<RunRecord>::empty()) =~= "<html><body>".spec_bytes());
}

/// One more run adds exactly one line, numbered by its position, in front
/// of the closing tags and after every line already there:
/// `Run <n>: Rate: <rate> DurationMs: <ms> <br />`. With the page of no
/// runs, this fixes the page of any list of runs: one line per run, in order.
pub proof fn lemma_page_adds_line_per_run(runs: Seq<RunRecord>, r: RunRecord)
    ensures
        page(runs).len() >= "</body></html>".spec_bytes().len(),
        page(runs.push(r)) == page(runs).subrange(0, page(runs).len() - "</body></html>".spec_bytes().len())
            + "Run ".spec_bytes() + decimal(runs.len()) + ": Rate: ".spec_bytes() + r.rate@
            + " DurationMs: ".spec_bytes() + decimal(r.duration_ms as nat) + " <br />".spec_bytes()
            + "</body></html>".spec_bytes(),
{
    let head = "<html><body>".spec_bytes();
    let tail = "</body></html>".spec_bytes();
    assert(runs.push(r).drop_last() =~= runs);
    assert(page(runs).subrange(0, page(runs).len() - tail.len()) =~= head + run_lines(runs));
    assert(page(runs.push(r)) =~= head + run_lines(runs) + ("Run ".spec_bytes() + decimal(runs.len())
        + ": Rate: ".spec_bytes() + r.rate@ + " DurationMs: ".spec_bytes() + decimal(r.duration_ms as nat)
        + " <br />".spec_bytes()) + tail);
}

/// The part of the response before the length of the body.
pub open spec fn response_head() -> Seq<u8> {
    "HTTP/1.0 200 OK\r\nContent-Type: text/html\r\nContent-Length: ".spec_bytes()
}

/// The part of the response between the length and the body.
pub open spec fn response_tail() -> Seq<u8> {
    "\r\nConnection: close\r\n\r\n".spec_bytes()
}

/// The response that carries `body`.
pub open spec fn response(body: Seq<u8>) -> Seq<u8> {
    response_head() + decimal(body.len()) + response_tail() + body
}

/// The response frames its body: right after the head stand the digits of
/// the Content-Length field, ended by a carriage return, and they read back
/// as the length of the body, which forms the last bytes of the response.
pub proof fn lemma_response_frames_body(body: Seq<u8>)
    ensures
        ({
            let r = response(body);
            let h = response_head().len() as int;
            let k = decimal(body.len()).len() as int;
            &&& k >= 1
            &&& all_digits(r.subrange(h, h + k))
            &&& parse_decimal(r.subrange(h, h + k)) == body.len()
            &&& r[h + k] == 13
            &&& r.subrange(r.len() - body.len(), r.len() as int) == body
        }),
{
    reveal_strlit("\r\nConnection: close\r\n\r\n");
    let r = response(body);
    let h = response_head().len() as int;
    let d = decimal(body.len());
    let k = d.len() as int;
    lemma_decimal_roundtrip(body.len());
    assert(r.subrange(h, h + k) =~= d);
    assert(vstd::string::is_ascii("\r\nConnection: close\r\n\r\n"));
    assert(response_tail().len() > 0 && response_tail()[0] == 13);
    assert(r[h + k] == response_tail()[0]);
    assert(r.subrange(r.len() - body.len(), r.len() as int) =~= body);
}

/// Where the bytes `13` (carriage return) stand in the response's head.
proof fn lemma_head_bytes()
    ensures
        "HTTP/1.0 200 OK\r\nContent-Type: text/html\r\nContent-Length: ".spec_bytes().len() == 58,
        forall|j: int|
            0 <= j < 58 && #[trigger] "HTTP/1.0 200 OK\r\nContent-Type: text/html\r\nContent-Length: ".spec_bytes()[j]
                == 13 ==> j == 15 || j == 40,
        "HTTP/1.0 200 OK\r\nContent-Type: text/html\r\nContent-Length: ".spec_bytes()[17] == 67,
        "HTTP/1.0 200 OK\r\nContent-Type: text/html\r\nContent-Length: ".spec_bytes()[42] == 67,
{
    reveal_strlit("HTTP/1.0 200 OK\r\nContent-Type: text/html\r\nContent-Length: ");
    assert(vstd::string::is_ascii("HTTP/1.0 200 OK\r\nContent-Type: text/html\r\nContent-Length: "));
}

/// Where the bytes `13` stand in the part between the length and the body.
proof fn lemma_tail_bytes()
    ensures
        "\r\nConnection: close\r\n\r\n".spec_bytes().len() == 23,
        forall|j: int|
            0 <= j < 23 && #[trigger] "\r\nConnection: close\r\n\r\n".spec_bytes()[j] == 13 ==> j == 0 || j
                == 19 || j == 21,
        "\r\nConnection: close\r\n\r\n".spec_bytes()[2] == 67,
        "\r\nConnection: close\r\n\r\n".spec_bytes().subrange(19, 23) == header_end(),
{
    reveal_strlit("\r\nConnection: close\r\n\r\n");
    assert(vstd::string::is_ascii("\r\nConnection: close\r\n\r\n"));
    assert("\r\nConnection: close\r\n\r\n".spec_bytes().subrange(19, 23) =~= header_end());
}

/// The response is the status line, the `Content-Type: text/html`, the
/// `Content-Length` with the body's length in decimal and the
/// `Connection: close` headers, then the body. Its header block ends at the
/// first `\r\n\r\n`, which ends exactly where the body begins, so a client
/// reads the whole body and nothing else as the body.
pub proof fn lemma_response_layout(body: Seq<u8>)
    ensures
        response(body) == "HTTP/1.0 200 OK\r\nContent-Type: text/html\r\nContent-Length: ".spec_bytes() + decimal(
            body.len(),
        ) + "\r\nConnection: close\r\n\r\n".spec_bytes() + body,
        ({
            let r = response(body);
            let h = r.len() - body.len();
            &&& h >= 4
            &&& r.subrange(h - 4, h) == header_end()
            &&& forall|i: int| 0 <= i < h - 4 ==> #[trigger] r.subrange(i, i + 4) != header_end()
            &&& r.subrange(h, r.len() as int) == body
        }),
{
    let head = "HTTP/1.0 200 OK\r\nContent-Type: text/html\r\nContent-Length: ".spec_bytes();
    let tail = "\r\nConnection: close\r\n\r\n".spec_bytes();
    let d = decimal(body.len());
    lemma_head_bytes();
    lemma_tail_bytes();
    lemma_decimal_roundtrip(body.len());
    let r = response(body);
    let k = d.len() as int;
    let h = r.len() - body.len();
    assert(h == 58 + k + 23);
    assert(r.subrange(h - 4, h) =~= tail.subrange(19, 23));
    assert(r.subrange(h, r.len() as int) =~= body);
    assert forall|i: int| 0 <= i < h - 4 implies #[trigger] r.subrange(i, i + 4) != header_end() by {
        if r.subrange(i, i + 4) == header_end() {
            assert(r.subrange(i, i + 4)[0] == 13 && r.subrange(i, i + 4)[2] == 13);
            assert(r[i] == 13 && r[i + 2] == 13);
            if i < 58 {
                assert(r[i] == head[i]);
                assert(i == 15 || i == 40);
                assert(r[i + 2] == head[i + 2]);
            } else if i < 58 + k {
                assert(r[i] == d[i - 58]);
                assert(48 <= d[i - 58] <= 57);
            } else {
                assert(r[i] == tail[i - 58 - k]);
                assert(i - 58 - k == 0);
                assert(r[i + 2] == tail[2]);
            }
        }
    }
}

/// Build the `200 OK` HTML response for `body`, with its length and
/// `Connection: close`.
pub fn http_response(body: &[u8]) -> (r: Vec<u8>)
    ensures
        r@ == response(body@),
{
    let mut out: Vec<u8> = Vec::new();
    push_text(&mut out, "HTTP/1.0 200 OK\r\nContent-Type: text/html\r\nContent-Length: ");
    push_decimal(&mut out, body.len() as u64);
    push_text(&mut out, "\r\nConnection: close\r\n\r\n");
    push_bytes(&mut out, body);
    out
}

} // verus!
