//! Strips the OSC frames that the shell integration sends for the proxy alone.

use vstd::prelude::*;

use crate::decimal::decimal;
use crate::decimal::digits_value;
use crate::decimal::lemma_decimal_digits;

verus! {

/// Where the filter stands in the byte stream.
#[derive(Debug, Clone, Copy, PartialEq, Eq, Structural)]
pub enum PrivateOscFilterState {
    Normal,
    /// After ESC.
    Esc,
    /// After `ESC ]`, reading the digits of the OSC code.
    CodeAcc,
    /// Inside the payload of a private frame.
    Strip,
    /// After an ESC inside the payload of a private frame.
    StripEsc,
}

/// The mathematical state of the filter.
pub enum OscState {
    Normal,
    Esc,
    /// The digits of the code read so far.
    Code(Seq<u8>),
    Strip,
    StripEsc,
}

/// The OSC codes 7770 to 7774. The shell integration produces them for the proxy's
/// consumption only.
pub open spec fn is_private_code(code: Seq<u8>) -> bool {
    code.len() == 4 && code[0] == 0x37 && code[1] == 0x37 && code[2] == 0x37 && 0x30 <= code[3]
        <= 0x34
}

/// `ESC ]`.
pub open spec fn osc_intro() -> Seq<u8> {
    seq![0x1Bu8, 0x5Du8]
}

/// The state after `b`, and the bytes that `b` releases to the terminal.
pub open spec fn osc_step(state: OscState, b: u8) -> (OscState, Seq<u8>) {
    match state {
        OscState::Normal => if b == 0x1B {
            (OscState::Esc, Seq::empty())
        } else {
            (OscState::Normal, seq![b])
        },
        OscState::Esc => if b == 0x5D {
            (OscState::Code(Seq::empty()), Seq::empty())
        } else if b == 0x1B {
            (OscState::Esc, seq![0x1Bu8])
        } else {
            (OscState::Normal, seq![0x1Bu8, b])
        },
        OscState::Code(code) => if 0x30 <= b <= 0x39 && code.len() < 5 {
            (OscState::Code(code.push(b)), Seq::empty())
        } else if is_private_code(code) && b == 0x07 {
            (OscState::Normal, Seq::empty())
        } else if is_private_code(code) && b == 0x3B {
            (OscState::Strip, Seq::empty())
        } else if is_private_code(code) && b == 0x1B {
            (OscState::StripEsc, Seq::empty())
        } else if b == 0x1B {
            (OscState::Esc, osc_intro() + code)
        } else {
            (OscState::Normal, (osc_intro() + code).push(b))
        },
        OscState::Strip => if b == 0x07 {
            (OscState::Normal, Seq::empty())
        } else if b == 0x1B {
            (OscState::StripEsc, Seq::empty())
        } else {
            (OscState::Strip, Seq::empty())
        },
        OscState::StripEsc => if b == 0x5C {
            (OscState::Normal, Seq::empty())
        } else if b == 0x1B {
            (OscState::StripEsc, Seq::empty())
        } else {
            (OscState::Strip, Seq::empty())
        },
    }
}

/// The state after `s`, and the bytes that `s` releases to the terminal.
pub open spec fn osc_run(state: OscState, s: Seq<u8>) -> (OscState, Seq<u8>)
    decreases s.len(),
{
    if s.len() == 0 {
        (state, Seq::empty())
    } else {
        let (mid, out) = osc_run(state, s.drop_last());
        let (end, more) = osc_step(mid, s.last());
        (end, out + more)
    }
}

#[derive(Debug)]
pub struct PrivateOscFilter {
    state: PrivateOscFilterState,
    acc: Vec<u8>,
}

impl View for PrivateOscFilter {
    type V = OscState;

    closed spec fn view(&self) -> OscState {
        match self.state {
            PrivateOscFilterState::Normal => OscState::Normal,
            PrivateOscFilterState::Esc => OscState::Esc,
            PrivateOscFilterState::CodeAcc => OscState::Code(self.acc@),
            PrivateOscFilterState::Strip => OscState::Strip,
            PrivateOscFilterState::StripEsc => OscState::StripEsc,
        }
    }
}

impl Default for PrivateOscFilter {
    fn default() -> (filter: Self)
        ensures
            filter@ == OscState::Normal,
    {
        PrivateOscFilter { state: PrivateOscFilterState::Normal, acc: Vec::new() }
    }
}

impl PrivateOscFilter {
    fn is_private(&self) -> (private: bool)
        ensures
            private == is_private_code(self.acc@),
    {
        self.acc.len() == 4 && self.acc[0] == 0x37 && self.acc[1] == 0x37 && self.acc[2] == 0x37
            && 0x30 <= self.acc[3] && self.acc[3] <= 0x34
    }

    /// Releases `ESC ]` and the digits held back.
    fn flush_code(&mut self, out: &mut Vec<u8>)
        ensures
            final(out)@ == old(out)@ + (osc_intro() + old(self).acc@),
            final(self).state == old(self).state,
    {
        out.push(0x1B);
        out.push(0x5D);
        out.append(&mut self.acc);
        assert(out@ =~= old(out)@ + (osc_intro() + old(self).acc@));
    }

    fn step(&mut self, byte: u8, out: &mut Vec<u8>)
        ensures
            final(self)@ == osc_step(old(self)@, byte).0,
            final(out)@ == old(out)@ + osc_step(old(self)@, byte).1,
    {
        let ghost before = out@;
        assert(before + Seq::<u8>::empty() =~= before);
        match self.state {
            PrivateOscFilterState::Normal => {
                if byte == 0x1B {
                    self.state = PrivateOscFilterState::Esc;
                } else {
                    out.push(byte);
                    assert(out@ =~= before + seq![byte]);
                }
            },
            PrivateOscFilterState::Esc => {
                if byte == 0x5D {
                    self.acc = Vec::new();
                    self.state = PrivateOscFilterState::CodeAcc;
                } else if byte == 0x1B {
                    // The second ESC may start a frame of its own.
                    out.push(0x1B);
                    assert(out@ =~= before + seq![0x1Bu8]);
                } else {
                    out.push(0x1B);
                    out.push(byte);
                    self.state = PrivateOscFilterState::Normal;
                    assert(out@ =~= before + seq![0x1Bu8, byte]);
                }
            },
            PrivateOscFilterState::CodeAcc => {
                let ghost code = self.acc@;
                if 0x30 <= byte && byte <= 0x39 && self.acc.len() < 5 {
                    self.acc.push(byte);
                } else if byte == 0x07 && self.is_private() {
                    self.state = PrivateOscFilterState::Normal;
                } else if byte == 0x3B && self.is_private() {
                    self.state = PrivateOscFilterState::Strip;
                } else if byte == 0x1B && self.is_private() {
                    // The start of an ST terminator for a private frame without payload.
                    self.state = PrivateOscFilterState::StripEsc;
                } else if byte == 0x1B {
                    self.flush_code(out);
                    self.state = PrivateOscFilterState::Esc;
                } else {
                    // Not one of the private codes.
                    self.flush_code(out);
                    out.push(byte);
                    self.state = PrivateOscFilterState::Normal;
                    assert(out@ =~= before + (osc_intro() + code).push(byte));
                }
            },
            PrivateOscFilterState::Strip => {
                if byte == 0x07 {
                    self.state = PrivateOscFilterState::Normal;
                } else if byte == 0x1B {
                    self.state = PrivateOscFilterState::StripEsc;
                }
            },
            PrivateOscFilterState::StripEsc => {
                if byte == 0x5C {
                    self.state = PrivateOscFilterState::Normal;
                } else if byte != 0x1B {
                    self.state = PrivateOscFilterState::Strip;
                }
            },
        }
    }

    /// The bytes of `input` that the terminal may see, after what was held back.
    pub fn filter(&mut self, input: &[u8]) -> (out: Vec<u8>)
        ensures
            (final(self)@, out@) == osc_run(old(self)@, input@),
    {
        let mut out: Vec<u8> = Vec::new();
        let mut i: usize = 0;
        assert(input@.take(0) =~= Seq::<u8>::empty());
        while i < input.len()
            invariant
                i <= input.len(),
                (self@, out@) == osc_run(old(self)@, input@.take(i as int)),
            decreases input.len() - i,
        {
            self.step(input[i], &mut out);
            i = i + 1;
            assert(input@.take(i as int).drop_last() =~= input@.take(i - 1));
        }
        assert(input@.take(i as int) =~= input@);
        out
    }
}

// ---- Laws ----

/// What reaches the terminal does not depend on how the stream is cut into chunks.
pub proof fn law_filter_ignores_chunk_borders(state: OscState, a: Seq<u8>, b: Seq<u8>)
    ensures
        ({
            let (mid, first) = osc_run(state, a);
            let (end, second) = osc_run(mid, b);
            osc_run(state, a + b) == (end, first + second)
        }),
    decreases b.len(),
{
    let (mid, first) = osc_run(state, a);
    if b.len() == 0 {
        assert(a + b =~= a);
        assert(first + Seq::<u8>::empty() =~= first);
    } else {
        law_filter_ignores_chunk_borders(state, a, b.drop_last());
        assert((a + b).drop_last() =~= a + b.drop_last());
        assert((a + b).last() == b.last());
        let (m, second) = osc_run(mid, b.drop_last());
        let more = osc_step(m, b.last()).1;
        assert(first + second + more =~= first + (second + more));
    }
}

/// A private frame: its payload, if it has one, stands behind a semicolon, and it ends in
/// BEL or in ST (`ESC \`).
pub open spec fn private_frame(code: Seq<u8>, payload: Option<Seq<u8>>, st: bool) -> Seq<u8> {
    let head = osc_intro() + code + (match payload {
        Some(p) => seq![0x3Bu8] + p,
        None => Seq::empty(),
    });
    if st {
        head + seq![0x1Bu8, 0x5Cu8]
    } else {
        head + seq![0x07u8]
    }
}

/// The byte at `i` stands right behind an ESC.
pub open spec fn is_escaped(p: Seq<u8>, i: int) -> bool {
    i > 0 && p[i - 1] == 0x1B
}

/// A payload in which the frame does not end: a BEL behind an ESC does not end it, and a
/// backslash without an ESC does not.
pub open spec fn is_unended(p: Seq<u8>) -> bool {
    forall|i: int|
        0 <= i < p.len() ==> (#[trigger] p[i] == 0x07 ==> is_escaped(p, i)) && (p[i] == 0x5C
            ==> !is_escaped(p, i))
}

/// The frame ends at its terminator, and not before.
pub open spec fn is_payload(payload: Option<Seq<u8>>, st: bool) -> bool {
    payload matches Some(p) ==> is_unended(p) && (st || !is_escaped(p, p.len() as int))
}

/// The bytes that the filter holds back in a state outside of private frames.
pub open spec fn held_bytes(state: OscState) -> Seq<u8> {
    match state {
        OscState::Esc => seq![0x1Bu8],
        OscState::Code(code) => osc_intro() + code,
        _ => Seq::empty(),
    }
}

/// What was read last belongs to a private frame, unless another digit makes its code that
/// of another one.
pub open spec fn is_inside_frame(state: OscState) -> bool {
    match state {
        OscState::Strip => true,
        OscState::StripEsc => true,
        OscState::Code(code) => is_private_code(code),
        _ => false,
    }
}

/// What the introducer of a private frame releases: the bytes held back, unless they
/// belong to a private frame themselves.
pub open spec fn released_by_frame(state: OscState) -> Seq<u8> {
    if is_inside_frame(state) {
        Seq::empty()
    } else {
        held_bytes(state)
    }
}

proof fn lemma_run_one(state: OscState, b: u8)
    ensures
        osc_run(state, seq![b]) == osc_step(state, b),
{
    let s = seq![b];
    assert(s.drop_last() =~= Seq::<u8>::empty());
    assert(osc_run(state, s.drop_last()) == (state, Seq::<u8>::empty()));
    assert(Seq::<u8>::empty() + osc_step(state, b).1 =~= osc_step(state, b).1);
}

proof fn lemma_run_push(state: OscState, s: Seq<u8>, b: u8)
    ensures
        ({
            let (mid, out) = osc_run(state, s);
            let (end, more) = osc_step(mid, b);
            osc_run(state, s.push(b)) == (end, out + more)
        }),
{
    assert(s.push(b).drop_last() =~= s);
}

/// The introducer of a private frame is held back, whatever came in front of it, or
/// belongs to the private frame that it stands in.
proof fn lemma_run_code(state: OscState, code: Seq<u8>)
    requires
        is_private_code(code),
    ensures
        osc_run(state, osc_intro() + code) == (
            if is_inside_frame(state) {
                OscState::Strip
            } else {
                OscState::Code(code)
            },
            released_by_frame(state),
        ),
{
    let e = Seq::<u8>::empty();
    let r = released_by_frame(state);
    lemma_run_one(state, 0x1B);
    lemma_run_push(state, seq![0x1Bu8], 0x5D);
    assert(seq![0x1Bu8].push(0x5D) =~= osc_intro());
    assert(r + e =~= r);
    let c0 = e.push(code[0]);
    let c1 = c0.push(code[1]);
    let c2 = c1.push(code[2]);
    let c3 = c2.push(code[3]);
    let i0 = osc_intro().push(code[0]);
    let i1 = i0.push(code[1]);
    let i2 = i1.push(code[2]);
    let i3 = i2.push(code[3]);
    lemma_run_push(state, osc_intro(), code[0]);
    lemma_run_push(state, i0, code[1]);
    lemma_run_push(state, i1, code[2]);
    lemma_run_push(state, i2, code[3]);
    assert(c3 =~= code);
    assert(i3 =~= osc_intro() + code);
}

proof fn lemma_run_strip(p: Seq<u8>)
    requires
        is_unended(p),
    ensures
        osc_run(OscState::Strip, p) == (
            if is_escaped(p, p.len() as int) {
                OscState::StripEsc
            } else {
                OscState::Strip
            },
            Seq::<u8>::empty(),
        ),
    decreases p.len(),
{
    if p.len() > 0 {
        let q = p.drop_last();
        assert forall|i: int| 0 <= i < q.len() implies (#[trigger] q[i] == 0x07 ==> is_escaped(
            q,
            i,
        )) && (q[i] == 0x5C ==> !is_escaped(q, i)) by {
            assert(q[i] == p[i]);
        }
        lemma_run_strip(q);
        assert(p.last() == p[p.len() - 1]);
        assert(Seq::<u8>::empty() + Seq::<u8>::empty() =~= Seq::<u8>::empty());
    }
}

/// A whole private frame releases what was held back in front of it, and leaves the filter
/// as it was at the start.
proof fn lemma_run_frame(state: OscState, code: Seq<u8>, payload: Option<Seq<u8>>, st: bool)
    requires
        is_private_code(code),
        is_payload(payload, st),
    ensures
        osc_run(state, private_frame(code, payload, st)) == (
            OscState::Normal,
            released_by_frame(state),
        ),
{
    let e = Seq::<u8>::empty();
    let r = released_by_frame(state);
    let frame = private_frame(code, payload, st);
    let intro = osc_intro() + code;
    lemma_run_code(state, code);
    assert(r + e =~= r);
    let head = intro + (match payload {
        Some(p) => seq![0x3Bu8] + p,
        None => e,
    });
    match payload {
        Some(p) => {
            lemma_run_push(state, intro, 0x3B);
            lemma_run_strip(p);
            law_filter_ignores_chunk_borders(state, intro.push(0x3B), p);
            assert(intro.push(0x3B) + p =~= head);
            assert(osc_run(state, head) == (osc_run(OscState::Strip, p).0, r));
        },
        None => {
            assert(head =~= intro);
        },
    }
    let mid = osc_run(state, head).0;
    assert(mid is Strip || (mid is StripEsc && st) || mid == OscState::Code(code));
    assert(osc_run(state, head).1 == r);
    if st {
        lemma_run_push(state, head, 0x1B);
        lemma_run_push(state, head.push(0x1B), 0x5C);
        assert(head.push(0x1B).push(0x5C) =~= frame);
    } else {
        lemma_run_push(state, head, 0x07);
        assert(head.push(0x07) =~= frame);
    }
}

/// Nothing of a private frame reaches the terminal, whatever stream stands in front of it:
/// the bytes held back so far are released, unless they belong to a private frame
/// themselves, and the rest of the stream is filtered as from the start. Where nothing is
/// held back, all is as if the frame were not there.
pub proof fn law_private_frame_is_stripped(
    before: Seq<u8>,
    code: Seq<u8>,
    payload: Option<Seq<u8>>,
    st: bool,
    after: Seq<u8>,
)
    requires
        is_private_code(code),
        is_payload(payload, st),
    ensures
        ({
            let (mid, out) = osc_run(OscState::Normal, before);
            let (end, more) = osc_run(OscState::Normal, after);
            osc_run(OscState::Normal, before + private_frame(code, payload, st) + after) == (
                end,
                out + released_by_frame(mid) + more,
            )
        }),
        osc_run(OscState::Normal, before).0 is Normal ==> osc_run(
            OscState::Normal,
            before + private_frame(code, payload, st) + after,
        ) == osc_run(OscState::Normal, before + after),
{
    let n = OscState::Normal;
    let frame = private_frame(code, payload, st);
    let (mid, out) = osc_run(n, before);
    lemma_run_frame(mid, code, payload, st);
    law_filter_ignores_chunk_borders(n, before, frame);
    law_filter_ignores_chunk_borders(n, before + frame, after);
    law_filter_ignores_chunk_borders(n, before, after);
    assert(out + Seq::<u8>::empty() =~= out);
}

/// A private code with its introducer and the byte that ends it stands at `i`.
pub open spec fn private_intro_at(s: Seq<u8>, i: int) -> bool {
    &&& 0 <= i
    &&& i + 7 <= s.len()
    &&& s[i] == 0x1B
    &&& s[i + 1] == 0x5D
    &&& is_private_code(s.subrange(i + 2, i + 6))
    &&& (s[i + 6] == 0x3B || s[i + 6] == 0x07 || s[i + 6] == 0x1B)
}

/// A stream in which no private frame begins passes unchanged: what the filter has
/// released, and the bytes it still holds back, are the stream.
pub proof fn law_other_bytes_pass_unchanged(s: Seq<u8>)
    requires
        forall|i: int| !#[trigger] private_intro_at(s, i),
    ensures
        ({
            let (state, out) = osc_run(OscState::Normal, s);
            &&& !(state is Strip || state is StripEsc)
            &&& out + held_bytes(state) == s
        }),
    decreases s.len(),
{
    let n = OscState::Normal;
    if s.len() == 0 {
        assert(Seq::<u8>::empty() + Seq::<u8>::empty() =~= s);
    } else {
        let t = s.drop_last();
        let b = s.last();
        assert forall|i: int| !#[trigger] private_intro_at(t, i) by {
            if private_intro_at(t, i) {
                assert(s.subrange(i + 2, i + 6) =~= t.subrange(i + 2, i + 6));
                assert(private_intro_at(s, i));
            }
        }
        law_other_bytes_pass_unchanged(t);
        let (mid, out) = osc_run(n, t);
        let (end, more) = osc_step(mid, b);
        assert(s =~= t.push(b));
        if let OscState::Code(code) = mid {
            if is_private_code(code) && (b == 0x3B || b == 0x07 || b == 0x1B) {
                let i = out.len() as int;
                assert(t == out + (osc_intro() + code));
                assert(s.subrange(i + 2, i + 6) =~= code);
                assert(s[i + 6] == b);
                assert(s[i] == t[i]);
                assert(s[i + 1] == t[i + 1]);
                assert(private_intro_at(s, i));
            }
        }
        assert(out + more + held_bytes(end) =~= s);
    }
}

/// The private codes are the decimal numbers from 7770 to 7774, and no other text is one.
pub proof fn law_private_codes_are_five_numbers(n: nat, code: Seq<u8>)
    ensures
        is_private_code(decimal(n)) <==> 7770 <= n <= 7774,
        is_private_code(code) ==> exists|m: nat| 7770 <= m <= 7774 && code == #[trigger] decimal(m),
{
    reveal_with_fuel(decimal, 5);
    if is_private_code(decimal(n)) {
        lemma_decimal_digits(n);
        reveal_with_fuel(digits_value, 5);
        let d = decimal(n);
        assert(d.drop_last().drop_last().drop_last().drop_last().len() == 0);
        assert(n == 7770 + (d[3] - 0x30));
    }
    if 7770 <= n <= 7774 {
        assert(decimal(n) =~= seq![0x37u8, 0x37, 0x37, (0x30 + n - 7770) as u8]);
    }
    if is_private_code(code) {
        let m = (7770 + (code[3] - 0x30)) as nat;
        assert(decimal(m) =~= seq![0x37u8, 0x37, 0x37, (0x30 + m - 7770) as u8]);
        assert(code =~= decimal(m));
    }
}

} // verus!
