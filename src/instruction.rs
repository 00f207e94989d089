//! The inbound wire protocol: a tag byte followed by little-endian fields.
use crate::bytes::{le_bytes, le_value, lemma_le_round_trip, lemma_le_value_bound, lemma_pow256_eight, read_u64_le};
use crate::error::AppError;
use solana_program::program_error::ProgramError;
use vstd::prelude::*;

verus! {

/// A command of the pool, as decoded from an inbound buffer. The fields are
/// raw magnitudes; no unit conversion is applied.
#[derive(Clone, Copy, Debug, PartialEq, Eq, Structural)]
pub enum AppInstruction {
    InitializePool { reserve: u64, lpt: u64 },
    AddLiquidity { reserve: u64 },
    RemoveLiquidity { lpt: u64 },
    Swap { amount: u64 },
}

/// The unsigned 64-bit field stored little-endian at `bytes[at..at + 8]`.
pub open spec fn field_at(bytes: Seq<u8>, at: int) -> u64 {
    le_value(bytes.subrange(at, at + 8)) as u64
}

/// What an inbound buffer decodes to. Byte 0 is the tag; the fields follow
/// it. Tag 0 needs sixteen bytes after the tag, tags 1 to 3 need eight; any
/// further bytes are ignored.
pub open spec fn spec_decode(bytes: Seq<u8>) -> Result<AppInstruction, AppError> {
    if bytes.len() == 0 {
        Err(AppError::InvalidInstruction)
    } else if bytes[0] == 0 {
        if bytes.len() >= 17 {
            Ok(AppInstruction::InitializePool { reserve: field_at(bytes, 1), lpt: field_at(bytes, 9) })
        } else {
            Err(AppError::InvalidInstruction)
        }
    } else if bytes[0] <= 3 {
        if bytes.len() >= 9 {
            let x = field_at(bytes, 1);
            Ok(
                if bytes[0] == 1 {
                    AppInstruction::AddLiquidity { reserve: x }
                } else if bytes[0] == 2 {
                    AppInstruction::RemoveLiquidity { lpt: x }
                } else {
                    AppInstruction::Swap { amount: x }
                },
            )
        } else {
            Err(AppError::InvalidInstruction)
        }
    } else {
        Err(AppError::InvalidInstruction)
    }
}

/// Reads the field at `bytes[at..at + 8]`.
fn read_field(bytes: &[u8], at: usize) -> (r: u64)
    requires
        at + 8 <= bytes@.len(),
    ensures
        r == field_at(bytes@, at as int),
        r as nat == le_value(bytes@.subrange(at as int, at + 8)),
{
    let r = read_u64_le(bytes, at);
    proof {
        lemma_le_value_bound(bytes@.subrange(at as int, at + 8));
        lemma_pow256_eight();
    }
    r
}

impl AppInstruction {
    /// Decodes an inbound buffer into a command. Fails, without a partial
    /// result, on an empty buffer, an unknown tag or a field cut short.
    pub fn decode(instruction: &[u8]) -> (r: Result<AppInstruction, AppError>)
        ensures
            r == spec_decode(instruction@),
    {
        let len: usize = instruction.len();
        if len == 0 {
            return Err(AppError::InvalidInstruction);
        }
        let tag = instruction[0];
        if tag == 0 {
            if len < 17 {
                return Err(AppError::InvalidInstruction);
            }
            let reserve = read_field(instruction, 1);
            let lpt = read_field(instruction, 9);
            Ok(AppInstruction::InitializePool { reserve, lpt })
        } else if tag <= 3 {
            if len < 9 {
                return Err(AppError::InvalidInstruction);
            }
            let x = read_field(instruction, 1);
            if tag == 1 {
                Ok(AppInstruction::AddLiquidity { reserve: x })
            } else if tag == 2 {
                Ok(AppInstruction::RemoveLiquidity { lpt: x })
            } else {
                Ok(AppInstruction::Swap { amount: x })
            }
        } else {
            Err(AppError::InvalidInstruction)
        }
    }

    /// Decodes an inbound buffer as `decode` does, reporting a failure as
    /// the runtime's error for `AppError::InvalidInstruction`.
    pub fn unpack(instruction: &[u8]) -> (r: Result<AppInstruction, ProgramError>)
        ensures
            r is Ok <==> spec_decode(instruction@) is Ok,
            r is Ok ==> spec_decode(instruction@) == Ok::<AppInstruction, AppError>(r->Ok_0),
    {
        match AppInstruction::decode(instruction) {
            Ok(command) => Ok(command),
            Err(e) => Err(e.to_program_error()),
        }
    }
}

/// Any buffer of at least seventeen bytes whose tag is 0 decodes to
/// `InitializePool`, with `reserve` and `lpt` the little-endian values of
/// bytes 1 to 8 and 9 to 16.
pub proof fn lemma_decode_initialize_pool(bytes: Seq<u8>)
    requires
        bytes.len() >= 17,
        bytes[0] == 0,
    ensures
        spec_decode(bytes) is Ok,
        ({
            let c = spec_decode(bytes)->Ok_0;
            &&& c is InitializePool
            &&& c->InitializePool_reserve as nat == le_value(bytes.subrange(1, 9))
            &&& c->InitializePool_lpt as nat == le_value(bytes.subrange(9, 17))
        }),
{
    lemma_le_value_bound(bytes.subrange(1, 9));
    lemma_le_value_bound(bytes.subrange(9, 17));
    lemma_pow256_eight();
}

/// An empty buffer, a tag above 3, and a tag of 1 to 3 with fewer than eight
/// bytes after it are all rejected.
pub proof fn lemma_decode_rejects(bytes: Seq<u8>)
    requires
        bytes.len() == 0 || bytes[0] > 3 || (1 <= bytes[0] <= 3 && bytes.len() < 9) || (bytes[0]
            == 0 && bytes.len() < 17),
    ensures
        spec_decode(bytes) == Err::<AppInstruction, AppError>(AppError::InvalidInstruction),
{
}

/// A tag of 1 to 3 followed by the eight little-endian bytes of `x` decodes
/// to the command of that tag carrying `x`.
pub proof fn lemma_decode_round_trip(tag: u8, x: u64)
    requires
        1 <= tag <= 3,
    ensures
        spec_decode(seq![tag] + le_bytes(x as nat, 8)) == Ok::<AppInstruction, AppError>(
            if tag == 1 {
                AppInstruction::AddLiquidity { reserve: x }
            } else if tag == 2 {
                AppInstruction::RemoveLiquidity { lpt: x }
            } else {
                AppInstruction::Swap { amount: x }
            },
        ),
{
    let bytes = seq![tag] + le_bytes(x as nat, 8);
    lemma_pow256_eight();
    lemma_le_round_trip(x as nat, 8);
    assert(bytes.subrange(1, 9) =~= le_bytes(x as nat, 8));
}

/// Tag 0 followed by the little-endian bytes of `reserve` and then of `lpt`
/// decodes to `InitializePool` carrying both.
pub proof fn lemma_decode_round_trip_initialize_pool(reserve: u64, lpt: u64)
    ensures
        spec_decode(seq![0u8] + le_bytes(reserve as nat, 8) + le_bytes(lpt as nat, 8)) == Ok::<
            AppInstruction,
            AppError,
        >(AppInstruction::InitializePool { reserve, lpt }),
{
    let bytes = seq![0u8] + le_bytes(reserve as nat, 8) + le_bytes(lpt as nat, 8);
    lemma_pow256_eight();
    lemma_le_round_trip(reserve as nat, 8);
    lemma_le_round_trip(lpt as nat, 8);
    assert(bytes.subrange(1, 9) =~= le_bytes(reserve as nat, 8));
    assert(bytes.subrange(9, 17) =~= le_bytes(lpt as nat, 8));
}

/// Decoding is a function of the bytes alone: equal buffers give equal
/// results.
pub proof fn lemma_decode_deterministic(a: Seq<u8>, b: Seq<u8>)
    requires
        a == b,
    ensures
        spec_decode(a) == spec_decode(b),
{
}

} // verus!
