use vstd::prelude::*;

use crate::path::{path_join, spec_path_join};

verus! {

/// `~/.config/kiwi/config.toml` below `home`.
pub fn user_config_path(home: &str) -> (r: String)
    ensures
        r@ == spec_path_join(home@, ".config/kiwi/config.toml"@),
{
    path_join(home, ".config/kiwi/config.toml")
}

} // verus!
