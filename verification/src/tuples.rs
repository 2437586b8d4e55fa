//! The generic tuple stream parser: a byte-by-byte state machine that
//! reconstructs parenthesized, comma-separated, quote-escaped tuples from a
//! decompressed SQL bulk-`INSERT` statement body.
//!
//! One engine serves both dump schemas; a schema lists the count and kind of
//! the fields of a tuple (unsigned integer, signed integer, or quoted title).
//! Any byte that cannot continue the current field's grammar is an
//! unrecoverable format violation for the stream: the schema is asserted,
//! not guessed.
use vstd::prelude::*;

verus! {

/// The kind of one field of a tuple schema.
#[derive(Clone, Copy, PartialEq, Eq, Structural)]
pub enum FieldKind {
    /// A decimal unsigned integer.
    Unsigned,
    /// A decimal integer with an optional single leading `-`.
    Signed,
    /// A single-quoted, backslash-escaped title string. Unescaped
    /// underscores decode to spaces; escaped characters are kept verbatim.
    Title,
}

/// One parsed field.
pub enum FieldValue {
    UInt(u64),
    Int(i64),
    Title(Vec<u8>),
}

/// The mathematical value of a [`FieldValue`].
pub enum FieldV {
    UInt(u64),
    Int(i64),
    Title(Seq<u8>),
}

impl View for FieldValue {
    type V = FieldV;

    open spec fn view(&self) -> FieldV {
        match self {
            FieldValue::UInt(v) => FieldV::UInt(*v),
            FieldValue::Int(v) => FieldV::Int(*v),
            FieldValue::Title(b) => FieldV::Title(b@),
        }
    }
}

/// Why a tuple stream was rejected.
#[derive(Clone, Copy, Debug, PartialEq, Eq, Structural)]
pub enum TupleError {
    /// A byte that cannot continue the current field's grammar.
    UnexpectedByte { byte: u8 },
    /// An integer field exceeds the representable range.
    NumberTooLarge,
}

/// The position of the state machine inside the byte stream.
#[allow(inconsistent_fields)]
pub enum ParseState {
    /// Consuming bytes until the `(` that opens the next tuple.
    Searching,
    /// Accumulating the digits of an integer field.
    IntField { neg: bool, acc: u64 },
    /// Expecting the opening quote of a title field.
    TitleStart,
    /// Inside a quoted title.
    TitleChars { acc: Vec<u8> },
    /// Inside a quoted title, directly after a backslash.
    TitleEscape { acc: Vec<u8> },
    /// After the closing quote of a title, expecting `,` or `)`.
    TitleEnd,
}

/// The mathematical value of a [`ParseState`].
#[allow(inconsistent_fields)]
pub enum ParseStateV {
    Searching,
    IntField { neg: bool, acc: u64 },
    TitleStart,
    TitleChars { acc: Seq<u8> },
    TitleEscape { acc: Seq<u8> },
    TitleEnd,
}

impl View for ParseState {
    type V = ParseStateV;

    open spec fn view(&self) -> ParseStateV {
        match self {
            ParseState::Searching => ParseStateV::Searching,
            ParseState::IntField { neg, acc } => ParseStateV::IntField { neg: *neg, acc: *acc },
            ParseState::TitleStart => ParseStateV::TitleStart,
            ParseState::TitleChars { acc } => ParseStateV::TitleChars { acc: acc@ },
            ParseState::TitleEscape { acc } => ParseStateV::TitleEscape { acc: acc@ },
            ParseState::TitleEnd => ParseStateV::TitleEnd,
        }
    }
}

/// The state machine: its position in the stream and the fields of the
/// tuple under construction.
pub struct TupleParser {
    pub state: ParseState,
    pub fields: Vec<FieldValue>,
}

/// The mathematical value of a [`TupleParser`].
pub struct TupleParserV {
    pub state: ParseStateV,
    pub fields: Seq<FieldV>,
}

/// The views of a sequence of parsed fields.
pub open spec fn fields_view(s: Seq<FieldValue>) -> Seq<FieldV> {
    s.map_values(|f: FieldValue| f@)
}

/// The views of a sequence of parsed tuples.
pub open spec fn tuples_view(s: Seq<Vec<FieldValue>>) -> Seq<Seq<FieldV>> {
    s.map_values(|t: Vec<FieldValue>| fields_view(t@))
}

impl View for TupleParser {
    type V = TupleParserV;

    open spec fn view(&self) -> TupleParserV {
        TupleParserV { state: self.state@, fields: fields_view(self.fields@) }
    }
}

/// The state that begins a field of the given kind.
pub open spec fn spec_start_state(kind: FieldKind) -> ParseStateV {
    match kind {
        FieldKind::Unsigned => ParseStateV::IntField { neg: false, acc: 0 },
        FieldKind::Signed => ParseStateV::IntField { neg: false, acc: 0 },
        FieldKind::Title => ParseStateV::TitleStart,
    }
}

/// The committed value of an integer field, or `None` when it does not fit.
pub open spec fn spec_int_value(kind: FieldKind, neg: bool, acc: u64) -> Option<FieldV> {
    match kind {
        FieldKind::Unsigned => Some(FieldV::UInt(acc)),
        FieldKind::Signed => if neg {
            if acc <= i64::MAX as u64 {
                Some(FieldV::Int((-(acc as int)) as i64))
            } else {
                None
            }
        } else {
            if acc <= i64::MAX as u64 {
                Some(FieldV::Int(acc as i64))
            } else {
                None
            }
        },
        FieldKind::Title => None,
    }
}

/// The parser's well-formedness against its schema: the fields gathered so
/// far never outrun the schema, and the current state works on a field of
/// the kind the schema gives it.
pub open spec fn state_wf(schema: Seq<FieldKind>, p: TupleParserV) -> bool {
    match p.state {
        ParseStateV::Searching => p.fields.len() == 0,
        ParseStateV::IntField { neg, acc } => {
            &&& p.fields.len() < schema.len()
            &&& (schema[p.fields.len() as int] == FieldKind::Unsigned || schema[p.fields.len()
                as int] == FieldKind::Signed)
            &&& (neg ==> schema[p.fields.len() as int] == FieldKind::Signed)
        },
        ParseStateV::TitleStart => p.fields.len() < schema.len() && schema[p.fields.len() as int]
            == FieldKind::Title,
        ParseStateV::TitleChars { acc } => p.fields.len() < schema.len() && schema[p.fields.len()
            as int] == FieldKind::Title,
        ParseStateV::TitleEscape { acc } => p.fields.len() < schema.len() && schema[p.fields.len()
            as int] == FieldKind::Title,
        ParseStateV::TitleEnd => 0 < p.fields.len() <= schema.len(),
    }
}

/// What one byte does to the parser.
pub enum StepV {
    /// The byte was consumed; the parser moved on.
    Cont(TupleParserV),
    /// The byte closed a tuple: the tuple's fields, and the parser reset.
    Emit(Seq<FieldV>, TupleParserV),
    /// The byte cannot continue the grammar.
    Fail(TupleError),
}

/// The transition function of the engine, one byte at a time.
///
/// Between tuples every byte but `(` is skipped. Inside an integer field,
/// digits accumulate decimally; a single `-` is recognized for a signed field
/// while the accumulated magnitude is still zero; `,` commits the field when
/// more fields follow, and `)` commits the tuple when it is the last field.
/// A title field opens with `'`, accumulates bytes (unescaped `_` decodes to
/// a space, a byte after `\` is kept verbatim), and closes on an unescaped
/// `'`. Any other byte fails the stream.
pub open spec fn spec_step(schema: Seq<FieldKind>, p: TupleParserV, b: u8) -> StepV {
    match p.state {
        ParseStateV::Searching => {
            if b == 0x28 {
                StepV::Cont(
                    TupleParserV { state: spec_start_state(schema[0]), fields: seq![] },
                )
            } else {
                StepV::Cont(p)
            }
        },
        ParseStateV::IntField { neg, acc } => {
            let kind = schema[p.fields.len() as int];
            if 0x30 <= b <= 0x39 {
                let d = (b - 0x30) as u64;
                if acc as nat * 10 + d as nat > u64::MAX as nat {
                    StepV::Fail(TupleError::NumberTooLarge)
                } else {
                    StepV::Cont(
                        TupleParserV {
                            state: ParseStateV::IntField {
                                neg,
                                acc: (acc as nat * 10 + d as nat) as u64,
                            },
                            fields: p.fields,
                        },
                    )
                }
            } else if b == 0x2D && kind == FieldKind::Signed && acc == 0 && !neg {
                StepV::Cont(
                    TupleParserV {
                        state: ParseStateV::IntField { neg: true, acc },
                        fields: p.fields,
                    },
                )
            } else if b == 0x2C && p.fields.len() + 1 < schema.len() {
                match spec_int_value(kind, neg, acc) {
                    Some(fv) => StepV::Cont(
                        TupleParserV {
                            state: spec_start_state(schema[p.fields.len() as int + 1]),
                            fields: p.fields.push(fv),
                        },
                    ),
                    None => StepV::Fail(TupleError::NumberTooLarge),
                }
            } else if b == 0x29 && p.fields.len() + 1 == schema.len() {
                match spec_int_value(kind, neg, acc) {
                    Some(fv) => StepV::Emit(
                        p.fields.push(fv),
                        TupleParserV { state: ParseStateV::Searching, fields: seq![] },
                    ),
                    None => StepV::Fail(TupleError::NumberTooLarge),
                }
            } else {
                StepV::Fail(TupleError::UnexpectedByte { byte: b })
            }
        },
        ParseStateV::TitleStart => {
            if b == 0x27 {
                StepV::Cont(
                    TupleParserV {
                        state: ParseStateV::TitleChars { acc: seq![] },
                        fields: p.fields,
                    },
                )
            } else {
                StepV::Fail(TupleError::UnexpectedByte { byte: b })
            }
        },
        ParseStateV::TitleChars { acc } => {
            if b == 0x5C {
                StepV::Cont(
                    TupleParserV { state: ParseStateV::TitleEscape { acc }, fields: p.fields },
                )
            } else if b == 0x27 {
                StepV::Cont(
                    TupleParserV {
                        state: ParseStateV::TitleEnd,
                        fields: p.fields.push(FieldV::Title(acc)),
                    },
                )
            } else if b == 0x5F {
                StepV::Cont(
                    TupleParserV {
                        state: ParseStateV::TitleChars { acc: acc.push(0x20) },
                        fields: p.fields,
                    },
                )
            } else {
                StepV::Cont(
                    TupleParserV {
                        state: ParseStateV::TitleChars { acc: acc.push(b) },
                        fields: p.fields,
                    },
                )
            }
        },
        ParseStateV::TitleEscape { acc } => StepV::Cont(
            TupleParserV {
                state: ParseStateV::TitleChars { acc: acc.push(b) },
                fields: p.fields,
            },
        ),
        ParseStateV::TitleEnd => {
            if b == 0x2C && p.fields.len() < schema.len() {
                StepV::Cont(
                    TupleParserV {
                        state: spec_start_state(schema[p.fields.len() as int]),
                        fields: p.fields,
                    },
                )
            } else if b == 0x29 && p.fields.len() == schema.len() {
                StepV::Emit(
                    p.fields,
                    TupleParserV { state: ParseStateV::Searching, fields: seq![] },
                )
            } else {
                StepV::Fail(TupleError::UnexpectedByte { byte: b })
            }
        },
    }
}

/// The parser in its initial state, before any byte.
pub open spec fn spec_initial() -> TupleParserV {
    TupleParserV { state: ParseStateV::Searching, fields: seq![] }
}

/// The tuples that running the machine from `p` over all of `bytes` commits,
/// or the first failure. A tuple left incomplete at end of stream is not
/// committed.
pub open spec fn spec_run(schema: Seq<FieldKind>, p: TupleParserV, bytes: Seq<u8>) -> Result<
    Seq<Seq<FieldV>>,
    TupleError,
>
    decreases bytes.len(),
{
    if bytes.len() == 0 {
        Ok(seq![])
    } else {
        match spec_step(schema, p, bytes[0]) {
            StepV::Cont(p2) => spec_run(schema, p2, bytes.drop_first()),
            StepV::Emit(t, p2) => match spec_run(schema, p2, bytes.drop_first()) {
                Ok(ts) => Ok(seq![t] + ts),
                Err(e) => Err(e),
            },
            StepV::Fail(e) => Err(e),
        }
    }
}

/// The step function preserves well-formedness.
proof fn lemma_step_wf(schema: Seq<FieldKind>, p: TupleParserV, b: u8)
    requires
        schema.len() > 0,
        state_wf(schema, p),
    ensures
        match spec_step(schema, p, b) {
            StepV::Cont(p2) => state_wf(schema, p2),
            StepV::Emit(t, p2) => state_wf(schema, p2) && t.len() == schema.len(),
            StepV::Fail(e) => true,
        },
{
}

/// Run one byte through the machine.
pub(crate) fn tuple_step(schema: &[FieldKind], p: TupleParser, b: u8) -> (r: Result<
    (TupleParser, Option<Vec<FieldValue>>),
    TupleError,
>)
    requires
        schema@.len() > 0,
        state_wf(schema@, p@),
    ensures
        match r {
            Ok((p2, emitted)) => match emitted {
                None => spec_step(schema@, p@, b) == StepV::Cont(p2@) && state_wf(schema@, p2@),
                Some(t) => spec_step(schema@, p@, b) == StepV::Emit(fields_view(t@), p2@)
                    && state_wf(schema@, p2@),
            },
            Err(e) => spec_step(schema@, p@, b) == StepV::Fail(e),
        },
{
    proof {
        lemma_step_wf(schema@, p@, b);
    }
    let TupleParser { state, mut fields } = p;
    match state {
        ParseState::Searching => {
            if b == 0x28 {
                let st = start_state(schema[0]);
                let p2 = TupleParser { state: st, fields: Vec::new() };
                proof {
                    assert(fields_view(Seq::<FieldValue>::empty()) =~= Seq::<FieldV>::empty());
                }
                Ok((p2, None))
            } else {
                Ok((TupleParser { state: ParseState::Searching, fields }, None))
            }
        },
        ParseState::IntField { neg, acc } => {
            let idx = fields.len();
            let kind = schema[idx];
            if 0x30 <= b && b <= 0x39 {
                let d: u64 = (b - 0x30) as u64;
                let wide: u128 = (acc as u128) * 10 + (d as u128);
                if wide > u64::MAX as u128 {
                    Err(TupleError::NumberTooLarge)
                } else {
                    let p2 = TupleParser {
                        state: ParseState::IntField { neg, acc: wide as u64 },
                        fields,
                    };
                    Ok((p2, None))
                }
            } else if b == 0x2D && matches!(kind, FieldKind::Signed) && acc == 0 && !neg {
                let p2 = TupleParser { state: ParseState::IntField { neg: true, acc }, fields };
                Ok((p2, None))
            } else if b == 0x2C && idx + 1 < schema.len() {
                match int_value(kind, neg, acc) {
                    Some(fv) => {
                        let ghost f0 = fields@;
                        let ghost fvv = fv@;
                        fields.push(fv);
                        proof {
                            assert(fields_view(fields@) =~= fields_view(f0).push(fvv));
                        }
                        let st = start_state(schema[idx + 1]);
                        Ok((TupleParser { state: st, fields }, None))
                    },
                    None => Err(TupleError::NumberTooLarge),
                }
            } else if b == 0x29 && idx + 1 == schema.len() {
                match int_value(kind, neg, acc) {
                    Some(fv) => {
                        let ghost f0 = fields@;
                        let ghost fvv = fv@;
                        fields.push(fv);
                        proof {
                            assert(fields_view(fields@) =~= fields_view(f0).push(fvv));
                            assert(fields_view(Seq::<FieldValue>::empty()) =~= Seq::<
                                FieldV,
                            >::empty());
                        }
                        let p2 = TupleParser { state: ParseState::Searching, fields: Vec::new() };
                        Ok((p2, Some(fields)))
                    },
                    None => Err(TupleError::NumberTooLarge),
                }
            } else {
                Err(TupleError::UnexpectedByte { byte: b })
            }
        },
        ParseState::TitleStart => {
            if b == 0x27 {
                let p2 = TupleParser {
                    state: ParseState::TitleChars { acc: Vec::new() },
                    fields,
                };
                Ok((p2, None))
            } else {
                Err(TupleError::UnexpectedByte { byte: b })
            }
        },
        ParseState::TitleChars { mut acc } => {
            if b == 0x5C {
                Ok((TupleParser { state: ParseState::TitleEscape { acc }, fields }, None))
            } else if b == 0x27 {
                let ghost f0 = fields@;
                let ghost av = acc@;
                fields.push(FieldValue::Title(acc));
                proof {
                    assert(fields_view(fields@) =~= fields_view(f0).push(FieldV::Title(av)));
                }
                Ok((TupleParser { state: ParseState::TitleEnd, fields }, None))
            } else if b == 0x5F {
                acc.push(0x20);
                Ok((TupleParser { state: ParseState::TitleChars { acc }, fields }, None))
            } else {
                acc.push(b);
                Ok((TupleParser { state: ParseState::TitleChars { acc }, fields }, None))
            }
        },
        ParseState::TitleEscape { mut acc } => {
            acc.push(b);
            Ok((TupleParser { state: ParseState::TitleChars { acc }, fields }, None))
        },
        ParseState::TitleEnd => {
            if b == 0x2C && fields.len() < schema.len() {
                let st = start_state(schema[fields.len()]);
                Ok((TupleParser { state: st, fields }, None))
            } else if b == 0x29 && fields.len() == schema.len() {
                proof {
                    assert(fields_view(Seq::<FieldValue>::empty()) =~= Seq::<FieldV>::empty());
                }
                let p2 = TupleParser { state: ParseState::Searching, fields: Vec::new() };
                Ok((p2, Some(fields)))
            } else {
                Err(TupleError::UnexpectedByte { byte: b })
            }
        },
    }
}

/// Executable form of [`spec_start_state`].
fn start_state(kind: FieldKind) -> (r: ParseState)
    ensures
        r@ == spec_start_state(kind),
{
    match kind {
        FieldKind::Unsigned => ParseState::IntField { neg: false, acc: 0 },
        FieldKind::Signed => ParseState::IntField { neg: false, acc: 0 },
        FieldKind::Title => ParseState::TitleStart,
    }
}

/// Executable form of [`spec_int_value`].
fn int_value(kind: FieldKind, neg: bool, acc: u64) -> (r: Option<FieldValue>)
    ensures
        match r {
            Some(fv) => spec_int_value(kind, neg, acc) == Some(fv@),
            None => spec_int_value(kind, neg, acc) is None,
        },
{
    match kind {
        FieldKind::Unsigned => Some(FieldValue::UInt(acc)),
        FieldKind::Signed => {
            if acc <= i64::MAX as u64 {
                if neg {
                    Some(FieldValue::Int(-(acc as i64)))
                } else {
                    Some(FieldValue::Int(acc as i64))
                }
            } else {
                None
            }
        },
        FieldKind::Title => None,
    }
}

/// Parse every complete tuple out of a byte stream.
///
/// Returns the committed tuples in order, or the first format violation.
/// The stream may begin with arbitrary bytes before the first `(` and may
/// end mid-tuple; an incomplete trailing tuple is not committed.
pub fn parse_tuple_stream(schema: &[FieldKind], bytes: &[u8]) -> (r: Result<
    Vec<Vec<FieldValue>>,
    TupleError,
>)
    requires
        schema@.len() > 0,
    ensures
        match r {
            Ok(ts) => spec_run(schema@, spec_initial(), bytes@) == Ok::<_, TupleError>(
                tuples_view(ts@),
            ),
            Err(e) => spec_run(schema@, spec_initial(), bytes@) == Err::<Seq<Seq<FieldV>>, _>(e),
        },
{
    let n = bytes.len();
    let mut p = TupleParser { state: ParseState::Searching, fields: Vec::new() };
    let mut out: Vec<Vec<FieldValue>> = Vec::new();
    let mut i: usize = 0;
    proof {
        assert(fields_view(Seq::<FieldValue>::empty()) =~= Seq::<FieldV>::empty());
        assert(p@ == spec_initial());
        assert(bytes@.skip(0) =~= bytes@);
        assert(tuples_view(Seq::<Vec<FieldValue>>::empty()) =~= Seq::<Seq<FieldV>>::empty());
        match spec_run(schema@, spec_initial(), bytes@) {
            Ok(rest) => {
                assert(tuples_view(out@) + rest =~= rest);
            },
            Err(e) => {},
        }
    }
    while i < n
        invariant
            n == bytes@.len(),
            i <= n,
            schema@.len() > 0,
            state_wf(schema@, p@),
            match spec_run(schema@, p@, bytes@.skip(i as int)) {
                Ok(rest) => spec_run(schema@, spec_initial(), bytes@) == Ok::<_, TupleError>(
                    tuples_view(out@) + rest,
                ),
                Err(e) => spec_run(schema@, spec_initial(), bytes@) == Err::<
                    Seq<Seq<FieldV>>,
                    TupleError,
                >(e),
            },
        decreases n - i,
    {
        let ghost pre = p@;
        let ghost rem = bytes@.skip(i as int);
        proof {
            assert(rem[0] == bytes@[i as int]);
            assert(rem.drop_first() =~= bytes@.skip(i + 1));
        }
        let b = bytes[i];
        match tuple_step(schema, p, b) {
            Ok((p2, emitted)) => {
                p = p2;
                match emitted {
                    Some(t) => {
                        let ghost tv = fields_view(t@);
                        let ghost o0 = out@;
                        out.push(t);
                        proof {
                            assert(tuples_view(out@) =~= tuples_view(o0).push(tv));
                            match spec_run(schema@, p@, bytes@.skip(i + 1)) {
                                Ok(ts) => {
                                    assert(spec_run(schema@, pre, rem) == Ok::<_, TupleError>(
                                        seq![tv] + ts,
                                    ));
                                    assert(tuples_view(o0) + (seq![tv] + ts) =~= tuples_view(out@)
                                        + ts);
                                },
                                Err(e) => {},
                            }
                        }
                    },
                    None => {},
                }
            },
            Err(e) => {
                return Err(e);
            },
        }
        i += 1;
    }
    proof {
        assert(bytes@.skip(n as int) =~= Seq::<u8>::empty());
    }
    Ok(out)
}

} // verus!
