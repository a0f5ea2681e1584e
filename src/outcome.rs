use vstd::prelude::*;

verus! {

/// What a `get_or_init` call did: `Init` when this call ran the
/// initializer and stored its value, `Get` when a value was already there.
pub enum GetOrInitData<T> {
    Init(T),
    Get(T),
}

impl<T> GetOrInitData<T> {
    /// The value carried by either outcome.
    pub open spec fn data(self) -> T {
        match self {
            GetOrInitData::Init(d) => d,
            GetOrInitData::Get(d) => d,
        }
    }

    /// Whether this outcome records an initialization.
    pub open spec fn is_init(self) -> bool {
        self is Init
    }

    /// Consumes the outcome and returns the value it carries.
    pub fn into_data(self) -> (r: T)
        ensures
            r == self.data(),
    {
        match self {
            GetOrInitData::Get(data) => data,
            GetOrInitData::Init(data) => data,
        }
    }
}

} // verus!
