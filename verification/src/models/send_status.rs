//! Delivery states of an outgoing message.

use vstd::prelude::*;

verus! {

/// Not confirmed by the server: sending, or failed.
pub const PENDING: i32 = 0;

/// Confirmed by the server.
pub const SENT: i32 = 1;

/// Read by the recipient.
pub const READ: i32 = 2;

/// The delivery indicator of an outgoing message.
pub open spec fn glyph_of(status: i32) -> Seq<char> {
    if status == READ {
        "✓✓"@
    } else if status == SENT {
        "✓"@
    } else {
        "🕓"@
    }
}

/// The delivery indicator of an outgoing message: a clock until the server has
/// it, then one tick, and two once it was read.
pub fn send_status_glyph(status: i32) -> (r: String)
    ensures
        r@ == glyph_of(status),
{
    if status == READ {
        "✓✓".to_owned()
    } else if status == SENT {
        "✓".to_owned()
    } else {
        "🕓".to_owned()
    }
}

/// The three states look different: a message that was read has two of the ticks
/// that a sent one has, and anything else shows neither.
pub proof fn states_look_different(status: i32)
    ensures
        PENDING != SENT && SENT != READ && PENDING != READ,
        glyph_of(READ) == glyph_of(SENT) + glyph_of(SENT),
        glyph_of(SENT) == seq!['✓'],
        status != READ && status != SENT ==> glyph_of(status) == glyph_of(PENDING),
        glyph_of(PENDING).len() == 1,
        glyph_of(PENDING) != glyph_of(SENT),
{
    reveal_strlit("✓✓");
    reveal_strlit("✓");
    reveal_strlit("🕓");
    assert(glyph_of(READ) =~= glyph_of(SENT) + glyph_of(SENT));
    assert(glyph_of(SENT) =~= seq!['✓']);
    assert(glyph_of(PENDING)[0] != '✓');
}

} // verus!
