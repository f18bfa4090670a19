//! The build cache: user-supplied code fragments prepended and appended
//! to the vendor, application and test bundles.

use vstd::prelude::*;
use crate::strutil::str_eq;

verus! {

/// The six injection slots, all empty until filled.
pub struct BuildCache {
    pub vendor_appends: &'static str,
    pub vendor_prepends: &'static str,
    pub application_appends: &'static str,
    pub application_prepends: &'static str,
    pub test_appends: &'static str,
    pub test_prepends: &'static str,
}

impl BuildCache {
    /// A cache with every slot empty.
    pub fn new() -> (r: Self)
        ensures
            r.vendor_appends@ == Seq::<char>::empty(),
            r.vendor_prepends@ == Seq::<char>::empty(),
            r.application_appends@ == Seq::<char>::empty(),
            r.application_prepends@ == Seq::<char>::empty(),
            r.test_appends@ == Seq::<char>::empty(),
            r.test_prepends@ == Seq::<char>::empty(),
    {
        proof {
            reveal_strlit("");
            assert(""@ =~= Seq::<char>::empty());
        }
        BuildCache {
            vendor_appends: "",
            vendor_prepends: "",
            application_appends: "",
            application_prepends: "",
            test_appends: "",
            test_prepends: "",
        }
    }

    /// Fills the slot named by `key` with `value`; an unknown key changes
    /// nothing.
    pub fn insert(self, key: &str, value: &'static str) -> (r: Self)
        ensures
            r.vendor_appends == (if key@ == "vendor_appends"@ {
                value
            } else {
                self.vendor_appends
            }),
            r.vendor_prepends == (if key@ == "vendor_prepends"@ {
                value
            } else {
                self.vendor_prepends
            }),
            r.application_appends == (if key@ == "application_appends"@ {
                value
            } else {
                self.application_appends
            }),
            r.application_prepends == (if key@ == "application_prepends"@ {
                value
            } else {
                self.application_prepends
            }),
            r.test_appends == (if key@ == "test_appends"@ {
                value
            } else {
                self.test_appends
            }),
            r.test_prepends == (if key@ == "test_prepends"@ {
                value
            } else {
                self.test_prepends
            }),
    {
        let mut cache = self;
        if str_eq(key, "vendor_appends") {
            cache.vendor_appends = value;
        } else if str_eq(key, "vendor_prepends") {
            cache.vendor_prepends = value;
        } else if str_eq(key, "application_appends") {
            cache.application_appends = value;
        } else if str_eq(key, "application_prepends") {
            cache.application_prepends = value;
        } else if str_eq(key, "test_appends") {
            cache.test_appends = value;
        } else if str_eq(key, "test_prepends") {
            cache.test_prepends = value;
        }
        proof {
            lemma_slot_names_distinct();
        }
        cache
    }
}

/// The six slot names name six different slots.
proof fn lemma_slot_names_distinct()
    ensures
        "vendor_appends"@ != "vendor_prepends"@,
        "vendor_appends"@ != "application_appends"@,
        "vendor_appends"@ != "application_prepends"@,
        "vendor_appends"@ != "test_appends"@,
        "vendor_appends"@ != "test_prepends"@,
        "vendor_prepends"@ != "application_appends"@,
        "vendor_prepends"@ != "application_prepends"@,
        "vendor_prepends"@ != "test_appends"@,
        "vendor_prepends"@ != "test_prepends"@,
        "application_appends"@ != "application_prepends"@,
        "application_appends"@ != "test_appends"@,
        "application_appends"@ != "test_prepends"@,
        "application_prepends"@ != "test_appends"@,
        "application_prepends"@ != "test_prepends"@,
        "test_appends"@ != "test_prepends"@,
{
    reveal_strlit("vendor_appends");
    reveal_strlit("vendor_prepends");
    reveal_strlit("application_appends");
    reveal_strlit("application_prepends");
    reveal_strlit("test_appends");
    reveal_strlit("test_prepends");
    assert("vendor_appends"@.len() == 14);
    assert("vendor_prepends"@.len() == 15);
    assert("application_appends"@.len() == 19);
    assert("application_prepends"@.len() == 20);
    assert("test_appends"@.len() == 12);
    assert("test_prepends"@.len() == 13);
}

} // verus!
