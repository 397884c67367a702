//! The command surface, and how a yes/no answer is read.

use vstd::prelude::*;

verus! {

/// A parsed invocation: the global switches and the chosen command.
pub struct Args {
    pub ask: bool,
    pub backup: bool,
    pub repo: Option<String>,
    pub command: Commands,
}

/// The commands the tool accepts.
pub enum Commands {
    Install { package: String },
    Remove { package: String },
    Upgrade,
    List,
    Run { app: String, app_args: Option<Vec<String>> },
    Restore,
}

/// One line of a yes/no answer: an empty line or a `y` means yes, an `n`
/// means no, anything else has to be asked again.
pub fn parse_prompt_response(line: &str) -> (r: Option<bool>)
    ensures
        (r == Some(true)) == (line@ == "\n"@ || line@ == "y\n"@ || line@ == "Y\n"@),
        (r == Some(false)) == (line@ == "n\n"@ || line@ == "N\n"@),
        (r is None) == (line@ != "\n"@ && line@ != "y\n"@ && line@ != "Y\n"@ && line@ != "n\n"@
            && line@ != "N\n"@),
{
    proof {
        reveal_strlit("\n");
        reveal_strlit("y\n");
        reveal_strlit("Y\n");
        reveal_strlit("n\n");
        reveal_strlit("N\n");
    }
    let n = line.unicode_len();
    if n == 1 && line.get_char(0) == '\n' {
        proof {
            assert(line@ =~= "\n"@);
        }
        Some(true)
    } else if n == 2 && line.get_char(1) == '\n' {
        let c = line.get_char(0);
        if c == 'y' || c == 'Y' {
            proof {
                assert(c == 'y' ==> line@ =~= "y\n"@);
                assert(c == 'Y' ==> line@ =~= "Y\n"@);
            }
            Some(true)
        } else if c == 'n' || c == 'N' {
            proof {
                assert(c == 'n' ==> line@ =~= "n\n"@);
                assert(c == 'N' ==> line@ =~= "N\n"@);
            }
            Some(false)
        } else {
            None
        }
    } else {
        None
    }
}

} // verus!
