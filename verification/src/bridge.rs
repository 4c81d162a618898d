use vstd::prelude::*;
use vstd::string::StringSliceAdditionalSpecFns;

verus! {

/// The failures a bridge request handler reports to its caller.
#[derive(Debug)]
pub enum BridgeError {
    InvalidTxHash,
    OriginTxFailed,
    TxNotFound,
    NoBridgeEventsInTx,
    InternalError(String),
}

pub type BridgeResult<T> = Result<T, BridgeError>;

/// Whether a byte is an ASCII hexadecimal digit.
pub open spec fn is_hex_digit(b: u8) -> bool {
    (48 <= b && b <= 57) || (97 <= b && b <= 102) || (65 <= b && b <= 70)
}

/// The numeric value of an ASCII hexadecimal digit.
pub open spec fn hex_value(b: u8) -> u8 {
    if 48 <= b && b <= 57 {
        (b - 48) as u8
    } else if 97 <= b && b <= 102 {
        (b - 87) as u8
    } else {
        (b - 55) as u8
    }
}

/// A hex string may carry a `0x` prefix; the digits follow it.
pub open spec fn strip_hex_prefix(s: Seq<u8>) -> Seq<u8> {
    if s.len() >= 2 && s[0] == 48 && s[1] == 120 {
        s.subrange(2, s.len() as int)
    } else {
        s
    }
}

/// A well-formed transaction hash: exactly 64 hexadecimal digits after an
/// optional `0x` prefix, encoding 32 bytes.
pub open spec fn valid_tx_hash(s: Seq<u8>) -> bool {
    let h = strip_hex_prefix(s);
    h.len() == 64 && forall|i: int| 0 <= i < 64 ==> is_hex_digit(#[trigger] h[i])
}

/// The numeric value of one ASCII hexadecimal digit, or nothing.
fn hex_nibble(b: u8) -> (r: Option<u8>)
    ensures
        match r {
            Some(v) => is_hex_digit(b) && v == hex_value(b),
            None => !is_hex_digit(b),
        },
{
    if 48 <= b && b <= 57 {
        Some(b - 48)
    } else if 97 <= b && b <= 102 {
        Some(b - 87)
    } else if 65 <= b && b <= 70 {
        Some(b - 55)
    } else {
        None
    }
}

/// Decode an incoming transaction-hash string into its 32 bytes; reject
/// exactly the strings that are not 64 hex digits (with optional `0x`
/// prefix).
pub fn parse_tx_hash(s: &str) -> (r: Result<Vec<u8>, BridgeError>)
    ensures
        ({
            let h = strip_hex_prefix(s.spec_bytes());
            match r {
                Ok(b) => valid_tx_hash(s.spec_bytes()) && b@.len() == 32 && forall|i: int|
                    0 <= i < 32 ==> #[trigger] b@[i] == hex_value(h[2 * i]) * 16 + hex_value(
                        h[2 * i + 1],
                    ),
                Err(e) => e is InvalidTxHash && !valid_tx_hash(s.spec_bytes()),
            }
        }),
{
    let bytes = s.as_bytes();
    let n = bytes.len();
    let start: usize = if n >= 2 && bytes[0] == 48 && bytes[1] == 120 {
        2
    } else {
        0
    };
    let ghost h = strip_hex_prefix(s.spec_bytes());
    proof {
        assert(h =~= bytes@.subrange(start as int, n as int));
    }
    if n - start != 64 {
        return Err(BridgeError::InvalidTxHash);
    }
    let mut out: Vec<u8> = Vec::new();
    let mut i: usize = 0;
    while i < 32
        invariant
            i <= 32,
            n == bytes@.len(),
            start + 64 == n,
            h == strip_hex_prefix(s.spec_bytes()),
            h =~= bytes@.subrange(start as int, n as int),
            h.len() == 64,
            out@.len() == i,
            forall|k: int| 0 <= k < 2 * i ==> is_hex_digit(#[trigger] h[k]),
            forall|k: int|
                0 <= k < i ==> #[trigger] out@[k] == hex_value(h[2 * k]) * 16 + hex_value(
                    h[2 * k + 1],
                ),
        decreases 32 - i,
    {
        let hi = match hex_nibble(bytes[start + 2 * i]) {
            Some(v) => v,
            None => {
                proof {
                    assert(!is_hex_digit(h[2 * (i as int)]));
                }
                return Err(BridgeError::InvalidTxHash);
            },
        };
        let lo = match hex_nibble(bytes[start + 2 * i + 1]) {
            Some(v) => v,
            None => {
                proof {
                    assert(!is_hex_digit(h[2 * (i as int) + 1]));
                }
                return Err(BridgeError::InvalidTxHash);
            },
        };
        out.push(hi * 16 + lo);
        i += 1;
    }
    Ok(out)
}

/// An account address is exactly 32 bytes; hand the bytes back unchanged
/// when they are one, and reject anything else.
pub fn sui_address_from_bytes(bytes: &[u8]) -> (r: Result<Vec<u8>, BridgeError>)
    ensures
        match r {
            Ok(a) => bytes@.len() == 32 && a@ == bytes@,
            Err(e) => e is InternalError && bytes@.len() != 32,
        },
{
    if bytes.len() != 32 {
        return Err(BridgeError::InternalError("address must hold exactly 32 bytes".to_owned()));
    }
    let mut out: Vec<u8> = Vec::new();
    let mut i: usize = 0;
    while i < 32
        invariant
            i <= 32,
            bytes@.len() == 32,
            out@ =~= bytes@.take(i as int),
        decreases 32 - i,
    {
        out.push(bytes[i]);
        i += 1;
    }
    proof {
        assert(out@ =~= bytes@);
    }
    Ok(out)
}

/// Every entry before position `i` is a present, well-formed 32-byte
/// address.
pub open spec fn senders_valid_before(s: Seq<Option<Vec<u8>>>, i: int) -> bool {
    forall|j: int| 0 <= j < i ==> (#[trigger] s[j]) is Some && s[j]->0@.len() == 32
}

/// The sender addresses attached to a stored event, scanned in order:
/// the first absent entry collapses the whole result to no list, the
/// first malformed present entry fails the conversion, and otherwise
/// every address is handed back validated, in order.
pub fn event_senders(senders: &Vec<Option<Vec<u8>>>) -> (r: Result<
    Option<Vec<Vec<u8>>>,
    BridgeError,
>)
    ensures
        match r {
            Ok(out) => match out {
                Some(v) => {
                    &&& senders_valid_before(senders@, senders@.len() as int)
                    &&& v@.len() == senders@.len()
                    &&& forall|i: int|
                        0 <= i < senders@.len() ==> (#[trigger] v@[i])@ == senders@[i]->0@
                },
                None => exists|i: int|
                    0 <= i < senders@.len() && (#[trigger] senders@[i]) is None
                        && senders_valid_before(senders@, i),
            },
            Err(e) => e is InternalError && exists|i: int|
                0 <= i < senders@.len() && (#[trigger] senders@[i]) is Some
                    && senders@[i]->0@.len() != 32 && senders_valid_before(senders@, i),
        },
{
    let mut out: Vec<Vec<u8>> = Vec::new();
    let n = senders.len();
    let mut i: usize = 0;
    while i < n
        invariant
            i <= n,
            n == senders@.len(),
            out@.len() == i,
            senders_valid_before(senders@, i as int),
            forall|k: int| 0 <= k < i ==> (#[trigger] out@[k])@ == senders@[k]->0@,
        decreases n - i,
    {
        match &senders[i] {
            None => {
                return Ok(None);
            },
            Some(sender) => {
                let address = match sui_address_from_bytes(sender.as_slice()) {
                    Ok(a) => a,
                    Err(e) => {
                        return Err(e);
                    },
                };
                out.push(address);
            },
        }
        i += 1;
    }
    Ok(Some(out))
}

} // verus!
