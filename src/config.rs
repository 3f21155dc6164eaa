use vstd::prelude::*;

verus! {

/// Process-wide settings.
pub struct Settings {
    pub port: u16,
}

/// A configured backend endpoint.
pub struct Provider {
    pub name: String,
    pub url: String,
    pub weight: u64,
}

/// The whole static configuration: settings and the provider list.
pub struct Config {
    pub settings: Settings,
    pub providers: Vec<Provider>,
}

/// Every provider carries a positive weight.
pub open spec fn config_weights_positive(ps: Seq<Provider>) -> bool {
    forall|i: int| 0 <= i < ps.len() ==> #[trigger] ps[i].weight > 0
}

impl Config {
    /// Whether every configured provider has a positive weight.
    pub fn has_positive_weights(&self) -> (r: bool)
        ensures
            r == config_weights_positive(self.providers@),
    {
        let mut i: usize = 0;
        while i < self.providers.len()
            invariant
                i <= self.providers@.len(),
                forall|k: int| 0 <= k < i ==> #[trigger] self.providers@[k].weight > 0,
            decreases self.providers@.len() - i,
        {
            if self.providers[i].weight == 0 {
                return false;
            }
            i = i + 1;
        }
        true
    }
}

} // verus!
