//! The KRHOS banner, printed on the console at boot and drawn on the
//! framebuffer.
use vstd::prelude::*;
use crate::uart::Uart;

verus! {

/// Number of lines of the banner.
pub const LOGO_LINES: usize = 13;
/// Column at which the framebuffer banner starts.
pub const LOGO_HDMI_X: u32 = 100;
/// Row of the first framebuffer banner line.
pub const LOGO_HDMI_Y: u32 = 100;
/// Rows between two framebuffer banner lines.
pub const LOGO_HDMI_LINE_HEIGHT: u32 = 20;

/// Line `i` of the banner (each ends with a newline).
pub open spec fn logo_line_text(i: int) -> Seq<char> {
    if i == 0 {
        "   ________________________________________________________  \n"@
    } else if i == 1 {
        "  /________________________________________________________| \n"@
    } else if i == 2 {
        " | ##    ##  ######    ##     ##     ## ##       #######   | \n"@
    } else if i == 3 {
        " | ##   ##   ##   ##   ##     ##  ##       ##  ##          | \n"@
    } else if i == 4 {
        " | ##  ##    ##   ##   ##     ##  ##       ##  ##          | \n"@
    } else if i == 5 {
        " | ## #      #####     ## ### ##  ##       ##     ###      | \n"@
    } else if i == 6 {
        " | ##  ##    ##   ##   ##     ##  ##       ##        ###   | \n"@
    } else if i == 7 {
        " | ##   ##   ##    ##  ##     ##  ##       ##          ##  | \n"@
    } else if i == 8 {
        " | ##    ##  ##     ## ##     ##     ## ##      ########   | \n"@
    } else if i == 9 {
        " |_________________________________________________________| \n"@
    } else if i == 10 {
        " |________________________________________________________/  \n"@
    } else if i == 11 {
        "     K         R          H           O            S         \n"@
    } else {
        "------------------------v 0.1.0----------------------------- \n"@
    }
}

/// The bytes of the first `n` banner lines, in order.
pub open spec fn logo_bytes(n: int) -> Seq<u8>
    decreases n,
{
    if n <= 0 {
        Seq::empty()
    } else {
        logo_bytes(n - 1) + vstd::utf8::encode_utf8(logo_line_text(n - 1))
    }
}

/// Line `i` of the banner.
pub fn logo_line(i: usize) -> (line: &'static str)
    requires
        i < LOGO_LINES,
    ensures
        line@ == logo_line_text(i as int),
{
    match i {
        0 => "   ________________________________________________________  \n",
        1 => "  /________________________________________________________| \n",
        2 => " | ##    ##  ######    ##     ##     ## ##       #######   | \n",
        3 => " | ##   ##   ##   ##   ##     ##  ##       ##  ##          | \n",
        4 => " | ##  ##    ##   ##   ##     ##  ##       ##  ##          | \n",
        5 => " | ## #      #####     ## ### ##  ##       ##     ###      | \n",
        6 => " | ##  ##    ##   ##   ##     ##  ##       ##        ###   | \n",
        7 => " | ##   ##   ##    ##  ##     ##  ##       ##          ##  | \n",
        8 => " | ##    ##  ##     ## ##     ##     ## ##      ########   | \n",
        9 => " |_________________________________________________________| \n",
        10 => " |________________________________________________________/  \n",
        11 => "     K         R          H           O            S         \n",
        _ => "------------------------v 0.1.0----------------------------- \n",
    }
}

/// The framebuffer row of banner line `i`.
pub fn logo_hdmi_row(i: usize) -> (y: u32)
    requires
        i < LOGO_LINES,
    ensures
        y == LOGO_HDMI_Y + LOGO_HDMI_LINE_HEIGHT * i,
{
    LOGO_HDMI_Y + LOGO_HDMI_LINE_HEIGHT * (i as u32)
}

/// Prints the banner on the console.
pub fn print_logo(uart: &mut Uart)
    ensures
        final(uart)@ == old(uart)@ + logo_bytes(LOGO_LINES as int),
{
    let mut i: usize = 0;
    while i < LOGO_LINES
        invariant
            i <= LOGO_LINES,
            uart@ == old(uart)@ + logo_bytes(i as int),
        decreases LOGO_LINES - i,
    {
        let line = logo_line(i);
        uart.write_str(line);
        i += 1;
    }
}

/// Every banner line is 61 characters wide plus its newline, and the
/// banner has no other line end; the last line carries the version.
pub proof fn lemma_logo_shape(i: int)
    requires
        0 <= i < 13,
    ensures
        logo_line_text(i).len() == 62,
        logo_line_text(i)[61] == '\n',
        forall|k: int| 0 <= k < 61 ==> #[trigger] logo_line_text(i)[k] != '\n',
        logo_line_text(12).subrange(24, 31) == "v 0.1.0"@,
{
    reveal_strlit("   ________________________________________________________  \n");
    reveal_strlit("  /________________________________________________________| \n");
    reveal_strlit(" | ##    ##  ######    ##     ##     ## ##       #######   | \n");
    reveal_strlit(" | ##   ##   ##   ##   ##     ##  ##       ##  ##          | \n");
    reveal_strlit(" | ##  ##    ##   ##   ##     ##  ##       ##  ##          | \n");
    reveal_strlit(" | ## #      #####     ## ### ##  ##       ##     ###      | \n");
    reveal_strlit(" | ##  ##    ##   ##   ##     ##  ##       ##        ###   | \n");
    reveal_strlit(" | ##   ##   ##    ##  ##     ##  ##       ##          ##  | \n");
    reveal_strlit(" | ##    ##  ##     ## ##     ##     ## ##      ########   | \n");
    reveal_strlit(" |_________________________________________________________| \n");
    reveal_strlit(" |________________________________________________________/  \n");
    reveal_strlit("     K         R          H           O            S         \n");
    reveal_strlit("------------------------v 0.1.0----------------------------- \n");
    reveal_strlit("v 0.1.0");
    assert(logo_line_text(12).subrange(24, 31) =~= "v 0.1.0"@);
}

} // verus!
