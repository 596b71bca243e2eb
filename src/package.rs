use vstd::prelude::*;

verus! {

/// One explicitly installed package, as the package lister reports it.
#[derive(Debug, Clone)]
pub struct Package {
    pub name: String,
    pub version: String,
    pub description: String,
    pub install_date: String,
    pub installed_size: u64,
    pub install_reason: String,
}

/// The most characters of a description shown in a package row.
pub const DESCRIPTION_PREVIEW: usize = 80;

/// What a package row shows of `description`: its first
/// `DESCRIPTION_PREVIEW` characters followed by an ellipsis.
pub open spec fn description_preview(description: Seq<char>) -> Seq<char> {
    let n = if description.len() < DESCRIPTION_PREVIEW { description.len() } else {
        DESCRIPTION_PREVIEW as nat
    };
    description.take(n as int) + seq!['.', '.', '.']
}

impl Package {
    /// The description as a package row shows it.
    pub fn short_description(&self) -> (r: String)
        ensures
            r@ == description_preview(self.description@),
    {
        let len = self.description.as_str().unicode_len();
        let n = if len < DESCRIPTION_PREVIEW { len } else { DESCRIPTION_PREVIEW };
        let mut out = String::from_str(self.description.as_str().substring_char(0, n));
        let dots = "...";
        proof {
            reveal_strlit("...");
        }
        out.append(dots);
        out
    }
}

} // verus!
