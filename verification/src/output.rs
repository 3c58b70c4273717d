//! The CPU store consumes native draw bytes and publishes canonical caches.
use vstd::prelude::*;

verus! {

/// Bytes 0 and 2 of every whole four-byte texel change places.
pub open spec fn swapped(pixels: Seq<u8>) -> Seq<u8> {
    Seq::new(
        pixels.len(),
        |k: int|
            if k / 4 * 4 + 4 > pixels.len() {
                pixels[k]
            } else if k % 4 == 0 {
                pixels[k + 2]
            } else if k % 4 == 2 {
                pixels[k - 2]
            } else {
                pixels[k]
            },
    )
}

/// Pixels in the order their readers take them: red first.
pub open spec fn canonical_pixels(pixels: Seq<u8>, bgra: bool) -> Seq<u8> {
    if bgra {
        swapped(pixels)
    } else {
        pixels
    }
}

/// Puts native draw pixels into the canonical order. Both the licensed writer and
/// the cache publisher take red first.
pub fn canonicalize(pixels: &mut Vec<u8>, pixels_bgra: bool)
    ensures
        final(pixels)@ == canonical_pixels(old(pixels)@, pixels_bgra),
{
    if !pixels_bgra {
        return ;
    }
    let ghost start = pixels@;
    let mut at: usize = 0;
    while pixels.len() - at >= 4
        invariant
            at <= pixels@.len(),
            at % 4 == 0,
            pixels@.len() == start.len(),
            start == old(pixels)@,
            forall|k: int| 0 <= k < at ==> (#[trigger] pixels@[k]) == swapped(start)[k],
            forall|k: int| at <= k < start.len() ==> (#[trigger] pixels@[k]) == start[k],
        decreases pixels@.len() - at,
    {
        let first: u8 = pixels[at];
        let third: u8 = pixels[at + 2];
        pixels.set(at, third);
        pixels.set(at + 2, first);
        at += 4;
    }
    assert(pixels@ =~= swapped(start));
}

/// A cache entry for a published target.
#[derive(Clone, Copy, Debug, PartialEq, Eq, Structural)]
pub struct CacheStore {
    /// The kind of the attachment's object, zero where it has none.
    pub object_type: u8,
    pub guest_holds_bytes: bool,
}

/// What follows the write to the guest: only a successful one licenses a cache
/// entry, which then says that the guest holds the bytes.
pub fn after_write(wrote: bool, object_type: Option<u8>) -> (store: Option<CacheStore>)
    ensures
        store == if wrote {
            Some(
                CacheStore {
                    object_type: match object_type {
                        Some(t) => t,
                        None => 0u8,
                    },
                    guest_holds_bytes: true,
                },
            )
        } else {
            None
        },
{
    if !wrote {
        return None;
    }
    let object_type: u8 = match object_type {
        Some(object_type) => object_type,
        None => 0,
    };
    Some(CacheStore { object_type, guest_holds_bytes: true })
}

/// Exchanging red and blue twice gives the pixels back.
pub proof fn law_swapping_twice_restores(pixels: Seq<u8>)
    ensures
        swapped(swapped(pixels)) == pixels,
{
    assert(swapped(swapped(pixels)) =~= pixels);
}

/// In every whole texel red and blue change places and green and alpha stay; bytes
/// behind the last whole texel stay too, and pixels that already have red first are
/// not touched.
pub proof fn law_red_and_blue_change_places(pixels: Seq<u8>, texel: int, k: int)
    requires
        0 <= texel,
        4 * texel + 4 <= pixels.len(),
    ensures
        canonical_pixels(pixels, true).len() == pixels.len(),
        canonical_pixels(pixels, true)[4 * texel] == pixels[4 * texel + 2],
        canonical_pixels(pixels, true)[4 * texel + 1] == pixels[4 * texel + 1],
        canonical_pixels(pixels, true)[4 * texel + 2] == pixels[4 * texel],
        canonical_pixels(pixels, true)[4 * texel + 3] == pixels[4 * texel + 3],
        pixels.len() - pixels.len() % 4 <= k < pixels.len() ==> canonical_pixels(pixels, true)[k]
            == pixels[k],
        canonical_pixels(pixels, false) == pixels,
{
}

} // verus!
