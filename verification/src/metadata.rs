use vstd::prelude::*;

verus! {

/// Descriptive metadata of the token: the metadata standard it declares, a
/// human-readable name and symbol, an optional icon, an optional off-ledger
/// reference with the hash of its content, and the decimal precision.
pub struct TokenMetadata {
    pub standard: String,
    pub name: String,
    pub symbol: String,
    pub icon: Option<String>,
    pub reference: Option<String>,
    pub reference_hash: Option<Vec<u8>>,
    pub decimals: u8,
}

impl TokenMetadata {
    /// Valid metadata declares the supported standard and carries a
    /// reference hash exactly when it carries a reference, 32 bytes long.
    pub open spec fn is_valid(self) -> bool {
        &&& self.standard@ == "ft-1.0"@
        &&& (self.reference is Some <==> self.reference_hash is Some)
        &&& (self.reference_hash matches Some(h) ==> h@.len() == 32)
    }
}

/// Whether metadata may be stored; the constructor and the metadata setter
/// insist on it.
pub fn metadata_is_valid(m: &TokenMetadata) -> (r: bool)
    ensures
        r == m.is_valid(),
{
    let standard_ok = m.standard == String::from_str("ft-1.0");
    let reference_ok = match (&m.reference, &m.reference_hash) {
        (Some(_), Some(h)) => h.len() == 32,
        (None, None) => true,
        _ => false,
    };
    standard_ok && reference_ok
}

} // verus!
