use vstd::prelude::*;

pub mod css;
pub mod highlight;
pub mod markdown;
pub mod org;
pub mod page;
pub mod resolver;
pub mod text;
pub mod themes;

verus! {

/// Optional light and dark theme names, as given on the command line and
/// held read-only for the whole process.
pub struct ThemeConfig {
    pub light: Option<String>,
    pub dark: Option<String>,
}

impl ThemeConfig {
    /// The requested light theme name, if any.
    pub open spec fn light_view(&self) -> Option<Seq<char>> {
        match self.light {
            Some(ref s) => Some(s@),
            None => None,
        }
    }

    /// The requested dark theme name, if any.
    pub open spec fn dark_view(&self) -> Option<Seq<char>> {
        match self.dark {
            Some(ref s) => Some(s@),
            None => None,
        }
    }
}

} // verus!
