//! The node's configuration.

use vstd::prelude::*;
use vstd::string::StringExecFns;

verus! {

/// What the node is started with.
#[derive(Clone, Debug)]
pub struct Config {
    pub rpc_url: String,
    pub contract_address: String,
    pub supported_languages: Vec<String>,
    pub operator_address: String,
}

impl Config {
    /// Whether `lang` is one of the supported languages.
    pub open spec fn supports(&self, lang: Seq<char>) -> bool {
        exists|i: int|
            0 <= i < self.supported_languages@.len() && (#[trigger] self.supported_languages@[i])@
                == lang
    }

    /// A configuration that supports the languages `js` and `go`.
    pub fn new(rpc_url: &str, contract_address: &str, operator_address: &str) -> (config: Self)
        ensures
            config.rpc_url@ == rpc_url@,
            config.contract_address@ == contract_address@,
            config.operator_address@ == operator_address@,
            config.supported_languages@.len() == 2,
            config.supported_languages@[0]@ == "js"@,
            config.supported_languages@[1]@ == "go"@,
    {
        let mut supported_languages: Vec<String> = Vec::new();
        supported_languages.push(String::from_str("js"));
        supported_languages.push(String::from_str("go"));
        Config {
            rpc_url: String::from_str(rpc_url),
            contract_address: String::from_str(contract_address),
            supported_languages,
            operator_address: String::from_str(operator_address),
        }
    }

    /// Whether `lang` is one of the supported languages.
    pub fn is_language_supported(&self, lang: &str) -> (supported: bool)
        ensures
            supported == self.supports(lang@),
    {
        let wanted = String::from_str(lang);
        let mut i: usize = 0;
        while i < self.supported_languages.len()
            invariant
                i <= self.supported_languages.len(),
                wanted@ == lang@,
                forall|k: int| 0 <= k < i ==> (#[trigger] self.supported_languages@[k])@ != lang@,
            decreases self.supported_languages.len() - i,
        {
            if self.supported_languages[i] == wanted {
                return true;
            }
            i = i + 1;
        }
        false
    }
}

} // verus!
