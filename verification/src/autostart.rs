//! Autostart on login via a desktop entry in `~/.config/autostart`. Writing
//! and removing the file is left to the program around the library.
use vstd::prelude::*;

verus! {

/// The desktop entry that starts the program at `exec` in the background.
pub open spec fn desktop_entry_spec(exec: Seq<char>) -> Seq<char> {
    "[Desktop Entry]\nType=Application\nName=Blue Time\nComment=Pomodoro timer\nComment[pt_BR]=Timer pomodoro\nExec="@
        + exec
        + " --hidden\nIcon=io.github.vlucas14sp.BlueTime\nTerminal=false\nX-GNOME-Autostart-enabled=true\n"@
}

/// The desktop entry that starts the program at `exec` in the background.
pub fn desktop_entry(exec: &str) -> (entry: String)
    ensures
        entry@ == desktop_entry_spec(exec@),
{
    let mut entry = String::from_str(
        "[Desktop Entry]\nType=Application\nName=Blue Time\nComment=Pomodoro timer\nComment[pt_BR]=Timer pomodoro\nExec=",
    );
    entry.append(exec);
    entry.append(
        " --hidden\nIcon=io.github.vlucas14sp.BlueTime\nTerminal=false\nX-GNOME-Autostart-enabled=true\n",
    );
    entry
}

} // verus!
