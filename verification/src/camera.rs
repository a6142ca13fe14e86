//! The computational side of frame capture: pixel-format expansion and
//! device labeling. Device enumeration and the capture loop live with
//! the capture backend, outside the verified core.
use vstd::prelude::*;
use vstd::string::{StrSliceExecFns, StringExecFns};

verus! {

/// Expand tightly packed RGB bytes to RGBA with an opaque alpha channel,
/// pixel by pixel; a trailing partial pixel is dropped.
pub fn rgb_to_rgba(rgb: &Vec<u8>) -> (r: Vec<u8>)
    ensures
        r@.len() == (rgb@.len() as int / 3) * 4,
        forall|p: int|
            0 <= p < rgb@.len() as int / 3 ==> #[trigger] r@[4 * p] == rgb@[3 * p] && r@[4 * p
                + 1] == rgb@[3 * p + 1] && r@[4 * p + 2] == rgb@[3 * p + 2] && r@[4 * p + 3]
                == 255,
{
    let n: usize = rgb.len();
    let pixel_count: usize = n / 3;
    let mut out: Vec<u8> = Vec::new();
    let mut p: usize = 0;
    while p < pixel_count
        invariant
            0 <= p <= pixel_count,
            n == rgb@.len(),
            pixel_count == rgb@.len() as int / 3,
            out@.len() == 4 * p,
            forall|q: int|
                0 <= q < p ==> #[trigger] out@[4 * q] == rgb@[3 * q] && out@[4 * q + 1] == rgb@[3
                    * q + 1] && out@[4 * q + 2] == rgb@[3 * q + 2] && out@[4 * q + 3] == 255,
        decreases pixel_count - p,
    {
        proof {
            assert(3 * (p as int) + 2 < rgb@.len()) by (nonlinear_arith)
                requires
                    0 <= p < rgb@.len() as int / 3,
            ;
        }
        out.push(rgb[3 * p]);
        out.push(rgb[3 * p + 1]);
        out.push(rgb[3 * p + 2]);
        out.push(255);
        proof {
            assert(out@[4 * (p as int)] == rgb@[3 * (p as int)]);
            assert(out@[4 * (p as int) + 1] == rgb@[3 * (p as int) + 1]);
            assert(out@[4 * (p as int) + 2] == rgb@[3 * (p as int) + 2]);
            assert(out@[4 * (p as int) + 3] == 255);
        }
        p = p + 1;
    }
    out
}

/// The label text of a device with a usable description.
pub open spec fn spec_label_with_desc(name: Seq<char>, desc: Seq<char>, index: Seq<char>)
    -> Seq<char> {
    name + " ("@ + desc + ", #"@ + index + ")"@
}

/// The label text of a device without one.
pub open spec fn spec_label_plain(name: Seq<char>, index: Seq<char>) -> Seq<char> {
    name + " (#"@ + index + ")"@
}

/// Compose a camera's display label from its name, trimmed description
/// and index: the description is included unless it is empty or the
/// placeholder "N/A".
pub fn format_camera_label(name: &str, desc: &str, index: &str) -> (r: String)
    ensures
        desc@.len() == 0 || desc@ == "N/A"@ ==> r@ == spec_label_plain(name@, index@),
        !(desc@.len() == 0 || desc@ == "N/A"@) ==> r@ == spec_label_with_desc(
            name@,
            desc@,
            index@,
        ),
{
    let placeholder = String::from_str("N/A");
    let described = String::from_str(desc);
    if desc.unicode_len() == 0 || described == placeholder {
        String::from_str(name).concat(" (#").concat(index).concat(")")
    } else {
        String::from_str(name).concat(" (").concat(desc).concat(", #").concat(index).concat(")")
    }
}

} // verus!
