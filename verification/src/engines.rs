//! The engine-compatibility constraint of a package manifest.

use vstd::prelude::*;
use crate::version::{valid_version, version_tail, Version};

verus! {

/// The package engines option.
#[derive(Debug, Clone)]
pub struct Engines {
    pub vscode: Version,
}

impl Engines {
    /// Creates a new package engines option.
    pub fn new(vscode_ver: Version) -> (r: Self)
        ensures
            r.vscode == vscode_ver,
    {
        Engines { vscode: vscode_ver }
    }
}

/// The default engine constraint text is a well-formed version.
proof fn lemma_default_engine_version_valid()
    ensures
        valid_version("^1.90.0"@),
{
    reveal_strlit("^1.90.0");
    let s = "^1.90.0"@;
    assert(s.len() == 7);
    assert(s[0] == '^');
    let t1 = s.skip(1);
    assert(t1 =~= seq!['1', '.', '9', '0', '.', '0']);
    let t2 = seq!['.', '9', '0', '.', '0'];
    let t3 = seq!['9', '0', '.', '0'];
    let t4 = seq!['0', '.', '0'];
    let t5 = seq!['.', '0'];
    let t6 = seq!['0'];
    assert(t1.drop_first() =~= t2);
    assert(t2.drop_first() =~= t3);
    assert(t3.drop_first() =~= t4);
    assert(t4.drop_first() =~= t5);
    assert(t5.drop_first() =~= t6);
    assert(t6.drop_first() =~= Seq::<char>::empty());
    assert(version_tail(Seq::<char>::empty(), true));
    assert(version_tail(t6, false));
    assert(version_tail(t5, true));
    assert(version_tail(t4, true));
    assert(version_tail(t3, false));
    assert(version_tail(t2, true));
    assert(version_tail(t1, false));
}

impl core::default::Default for Engines {
    /// The default engine constraint.
    fn default() -> (r: Self)
        ensures
            r.vscode@ == "^1.90.0"@,
            r.vscode.wf(),
    {
        proof {
            lemma_default_engine_version_valid();
        }
        match Version::parse("^1.90.0") {
            Ok(v) => Engines { vscode: v },
            Err(_) => vstd::pervasive::unreached(),
        }
    }
}

} // verus!
