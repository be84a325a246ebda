use vstd::prelude::*;

verus! {

/// The structured description a token may carry.
#[derive(Clone, Debug)]
pub struct TokenMetadata {
    pub title: Option<String>,
    pub description: Option<String>,
    pub media: Option<String>,
    pub issued_at: Option<String>,
    pub extra: Option<String>,
}

/// The singleton description of the whole collection, set at initialization.
#[derive(Clone, Debug)]
pub struct ContractMetadata {
    pub spec_version: String,
    pub name: String,
    pub symbol: String,
    pub icon: Option<String>,
    pub base_uri: Option<String>,
    pub reference: Option<String>,
    pub reference_hash: Option<String>,
}

/// The storage charge of an optional string: its length in characters.
pub open spec fn opt_str_len(o: Option<String>) -> nat {
    match o {
        Option::None => 0,
        Option::Some(s) => s@.len(),
    }
}

/// Copies an optional string; the copy equals the original.
pub fn dup_opt_string(o: &Option<String>) -> (r: Option<String>)
    ensures
        r == *o,
{
    match o {
        Option::None => Option::None,
        Option::Some(s) => Option::Some(s.clone()),
    }
}

/// The length in characters of an optional string.
pub fn opt_str_measure(o: &Option<String>) -> (r: usize)
    ensures
        r == opt_str_len(*o),
{
    match o {
        Option::None => 0,
        Option::Some(s) => s.as_str().unicode_len(),
    }
}

impl TokenMetadata {
    /// The persisted size of this metadata, in bytes of the storage model:
    /// the character count of every field.
    pub open spec fn size(self) -> nat {
        opt_str_len(self.title) + opt_str_len(self.description) + opt_str_len(self.media)
            + opt_str_len(self.issued_at) + opt_str_len(self.extra)
    }

    /// Copies the metadata; the copy equals the original.
    pub fn duplicate(&self) -> (r: Self)
        ensures
            r == *self,
    {
        TokenMetadata {
            title: dup_opt_string(&self.title),
            description: dup_opt_string(&self.description),
            media: dup_opt_string(&self.media),
            issued_at: dup_opt_string(&self.issued_at),
            extra: dup_opt_string(&self.extra),
        }
    }

    /// Measures the persisted size of this metadata.
    pub fn measure(&self) -> (r: usize)
        requires
            self.size() <= usize::MAX,
        ensures
            r == self.size(),
    {
        let a = opt_str_measure(&self.title);
        let b = opt_str_measure(&self.description);
        let c = opt_str_measure(&self.media);
        let d = opt_str_measure(&self.issued_at);
        let e = opt_str_measure(&self.extra);
        a + b + c + d + e
    }
}

/// The persisted size of a token's optional metadata.
pub open spec fn opt_metadata_size(o: Option<TokenMetadata>) -> nat {
    match o {
        Option::None => 0,
        Option::Some(m) => m.size(),
    }
}

/// Copies a token's optional metadata; the copy equals the original.
pub fn dup_opt_metadata(o: &Option<TokenMetadata>) -> (r: Option<TokenMetadata>)
    ensures
        r == *o,
{
    match o {
        Option::None => Option::None,
        Option::Some(m) => Option::Some(m.duplicate()),
    }
}

/// Measures the persisted size of a token's optional metadata.
pub fn opt_metadata_measure(o: &Option<TokenMetadata>) -> (r: usize)
    requires
        opt_metadata_size(*o) <= usize::MAX,
    ensures
        r == opt_metadata_size(*o),
{
    match o {
        Option::None => 0,
        Option::Some(m) => m.measure(),
    }
}

impl ContractMetadata {
    /// Copies the collection metadata; the copy equals the original.
    pub fn duplicate(&self) -> (r: Self)
        ensures
            r == *self,
    {
        ContractMetadata {
            spec_version: self.spec_version.clone(),
            name: self.name.clone(),
            symbol: self.symbol.clone(),
            icon: dup_opt_string(&self.icon),
            base_uri: dup_opt_string(&self.base_uri),
            reference: dup_opt_string(&self.reference),
            reference_hash: dup_opt_string(&self.reference_hash),
        }
    }
}

} // verus!
