use vstd::prelude::*;
use vstd::string::{StrSliceExecFns, StringExecFns};

verus! {

/// `s` with every `:` replaced by `_`.
pub open spec fn colons_to_underscores(s: Seq<char>) -> Seq<char> {
    Seq::new(s.len(), |i: int| if s[i] == ':' { '_' } else { s[i] })
}

fn mangled_path(prefix: &str, addr: &str) -> (r: String)
    ensures
        r@ == prefix@ + colons_to_underscores(addr@),
{
    let mut out = prefix.to_owned();
    let n = addr.unicode_len();
    let mut i: usize = 0;
    while i < n
        invariant
            n == addr@.len(),
            i <= n,
            out@ == prefix@ + colons_to_underscores(addr@).subrange(0, i as int),
        decreases n - i,
    {
        if addr.get_char(i) == ':' {
            out.append("_");
            proof {
                reveal_strlit("_");
            }
        } else {
            out.append(addr.substring_char(i, i + 1));
        }
        i = i + 1;
        assert(out@ =~= prefix@ + colons_to_underscores(addr@).subrange(0, i as int));
    }
    assert(colons_to_underscores(addr@).subrange(0, n as int) =~= colons_to_underscores(addr@));
    out
}

/// The BlueZ object path of a device: `"AA:BB:CC:DD:EE:FF"` becomes
/// `"/org/bluez/hci0/dev_AA_BB_CC_DD_EE_FF"`.
pub fn bt_addr_to_bluez_path(addr: &str) -> (r: String)
    ensures
        r@ == "/org/bluez/hci0/dev_"@ + colons_to_underscores(addr@),
{
    mangled_path("/org/bluez/hci0/dev_", addr)
}

/// The object path of a device's battery: `"AA:BB:CC:DD:EE:FF"` becomes
/// `"/com/supvan/battery/dev_AA_BB_CC_DD_EE_FF"`.
pub fn bt_addr_to_provider_path(addr: &str) -> (r: String)
    ensures
        r@ == "/com/supvan/battery/dev_"@ + colons_to_underscores(addr@),
{
    mangled_path("/com/supvan/battery/dev_", addr)
}

} // verus!
