//! The texts that the screen shows: titles, rows, the log panel and prompts.
use vstd::prelude::*;

use crate::model::{InstalledBloat, Risk};
use crate::text::{dec, decimal, join, join_strings, pad_right, pad_right_str, views};
use crate::ui::{App, selected_count};

verus! {

/// The help line shown while a removal waits for confirmation.
pub open spec fn confirm_help() -> Seq<char> {
    "CONFIRM:  Y  = remove selected packages   |   N  or  Esc  = cancel"@
}

/// The help line shown otherwise.
pub open spec fn key_help() -> Seq<char> {
    "\u{2191}/\u{2193} move  Space toggle  a select all visible  c clear  A toggle advanced packages  r refresh  x remove  q quit  Uninstall uses: adb shell pm uninstall --user 0 <pkg>"@
}

impl App {
    /// The title of the device panel.
    pub fn header_title(&self) -> (res: String)
        ensures
            res@ == "xiaomi-debloater \u{2014} "@ + self.device_info@ + "  [Advanced: "@ + (if self.show_advanced {
                "shown"@
            } else {
                "hidden"@
            }) + "]"@,
    {
        let mut s = String::from_str("xiaomi-debloater \u{2014} ");
        s.append(self.device_info.as_str());
        s.append("  [Advanced: ");
        if self.show_advanced {
            s.append("shown");
        } else {
            s.append("hidden");
        }
        s.append("]");
        s
    }

    /// The title of the package list: rows shown and entries marked among them.
    pub fn list_title(&self) -> (res: String)
        requires
            self.rows_valid(),
        ensures
            res@ == "Installed catalog packages ("@ + dec(self.visible_indices@.len()) + ") \u{2014} "@
                + dec(selected_count(self@)) + " selected"@,
    {
        let mut s = String::from_str("Installed catalog packages (");
        s.append(decimal(self.visible_indices.len()).as_str());
        s.append(") \u{2014} ");
        s.append(decimal(self.count_selected()).as_str());
        s.append(" selected");
        s
    }

    /// The text of the log panel: the status line while the log is empty,
    /// else the log lines.
    pub fn log_text(&self) -> (res: String)
        ensures
            res@ == if self.log@.len() == 0 {
                self.status@
            } else {
                join(views(self.log@), "\n"@)
            },
    {
        if self.log.len() == 0 {
            self.status.clone()
        } else {
            join_strings(&self.log, "\n")
        }
    }

    /// The height of the log panel: two rows while the log is empty, else six.
    pub fn log_panel_height(&self) -> (res: u16)
        ensures
            res == if self.log@.len() == 0 {
                2u16
            } else {
                6u16
            },
    {
        if self.log.len() == 0 {
            2
        } else {
            6
        }
    }

    /// The help line for the current mode.
    pub fn help_text(&self) -> (res: String)
        ensures
            res@ == if self.confirm_remove {
                confirm_help()
            } else {
                key_help()
            },
    {
        if self.confirm_remove {
            String::from_str("CONFIRM:  Y  = remove selected packages   |   N  or  Esc  = cancel")
        } else {
            String::from_str(
                "\u{2191}/\u{2193} move  Space toggle  a select all visible  c clear  A toggle advanced packages  r refresh  x remove  q quit  Uninstall uses: adb shell pm uninstall --user 0 <pkg>",
            )
        }
    }

    /// The question of the confirmation popup.
    pub fn confirm_question(&self) -> (res: String)
        requires
            self.rows_valid(),
        ensures
            res@ == "Remove "@ + dec(selected_count(self@))
                + " selected app(s) for the primary user (user 0)?"@,
    {
        let mut s = String::from_str("Remove ");
        s.append(decimal(self.count_selected()).as_str());
        s.append(" selected app(s) for the primary user (user 0)?");
        s
    }
}

/// The mark column of a row, with the space after it.
pub fn row_mark(b: &InstalledBloat) -> (res: String)
    ensures
        res@ == if b.selected {
            "[x] "@
        } else {
            "[ ] "@
        },
{
    if b.selected {
        String::from_str("[x] ")
    } else {
        String::from_str("[ ] ")
    }
}

/// The risk label of a row.
pub open spec fn risk_label(r: Risk) -> Seq<char> {
    match r {
        Risk::Safe => "safe"@,
        Risk::Caution => "caution"@,
        Risk::Advanced => "advanced"@,
    }
}

/// The risk column of a row: the label padded to eight characters, and a space.
pub fn risk_cell(r: Risk) -> (res: String)
    ensures
        res@ == pad_right(risk_label(r), 8) + " "@,
{
    let label = match r {
        Risk::Safe => "safe",
        Risk::Caution => "caution",
        Risk::Advanced => "advanced",
    };
    let mut s = pad_right_str(label, 8);
    s.append(" ");
    s
}

/// `s` cut to `max` characters: when longer, its first `max - 1` characters
/// (none when `max` is 0) and an ellipsis.
pub open spec fn truncated(s: Seq<char>, max: nat) -> Seq<char> {
    if s.len() > max {
        s.take(if max >= 1 {
            max - 1
        } else {
            0
        }) + "\u{2026}"@
    } else {
        s
    }
}

/// A description cut to fit a row.
pub fn truncate_desc(s: &str, max: usize) -> (res: String)
    ensures
        res@ == truncated(s@, max as nat),
{
    let n = s.unicode_len();
    if n > max {
        let keep = if max >= 1 {
            max - 1
        } else {
            0
        };
        let mut t = String::from_str(s.substring_char(0, keep));
        t.append("\u{2026}");
        assert(s@.subrange(0, keep as int) =~= s@.take(keep as int));
        t
    } else {
        String::from_str(s)
    }
}

/// The device line: brand, model, Android release and, when known, the serial.
pub fn device_summary(brand: &str, model: &str, android: &str, serial: Option<&str>) -> (res: String)
    ensures
        res@ == brand@ + " "@ + model@ + " (Android "@ + android@ + ") "@ + match serial {
            Some(s) => "serial "@ + s@,
            None => Seq::<char>::empty(),
        },
{
    let mut t = String::from_str(brand);
    t.append(" ");
    t.append(model);
    t.append(" (Android ");
    t.append(android);
    t.append(") ");
    if let Some(s) = serial {
        t.append("serial ");
        t.append(s);
    } else {
        assert(t@ + Seq::<char>::empty() =~= t@);
    }
    t
}

/// The share of each side of a centred popup that takes `percent` of a length.
pub fn popup_side_percent(percent: u16) -> (res: u16)
    requires
        percent <= 100,
    ensures
        res == (100 - percent) / 2,
{
    (100 - percent) / 2
}

} // verus!
