use vstd::prelude::*;

use crate::text::{has_prefix, starts_with};

verus! {

/// The desktop platform that the app runs on, as far as opening links goes.
#[derive(PartialEq, Eq, Structural, Clone, Copy, Debug)]
pub enum Platform {
    Windows,
    MacOs,
    /// Linux and the other free desktops, which follow the freedesktop.org conventions.
    Other,
}

/// A program to start, with its arguments, that opens a link in the default browser.
/// The program is started directly, never through a command interpreter.
pub struct LaunchCommand {
    pub program: String,
    pub args: Vec<String>,
}

impl View for LaunchCommand {
    type V = (Seq<char>, Seq<Seq<char>>);

    open spec fn view(&self) -> (Seq<char>, Seq<Seq<char>>) {
        (self.program@, self.args@.map_values(|a: String| a@))
    }
}

/// The only scheme that the app opens.
pub open spec fn secure_scheme() -> Seq<char> {
    seq!['h', 't', 't', 'p', 's', ':', '/', '/']
}

/// The error text for a link that does not start with `https://`.
pub open spec fn invalid_scheme_error() -> Seq<char> {
    seq!['i', 'n', 'v', 'a', 'l', 'i', 'd', '_', 's', 'c', 'h', 'e', 'm', 'e']
}

/// The program that hands a link to the default browser on each platform.
pub open spec fn opener_program(platform: Platform) -> Seq<char> {
    match platform {
        Platform::Windows => "rundll32"@,
        Platform::MacOs => "open"@,
        Platform::Other => "xdg-open"@,
    }
}

/// The command that opens `url` in the default browser: `rundll32
/// url.dll,FileProtocolHandler <url>` on Windows, `open <url>` on macOS and
/// `xdg-open <url>` elsewhere. The link is always one argument of its own and
/// reaches the program unchanged: none of these programs reads it as a command line,
/// so characters such as `&` in a link start nothing.
pub open spec fn launch_command_for(platform: Platform, url: Seq<char>) -> (Seq<char>, Seq<Seq<char>>) {
    match platform {
        Platform::Windows => (opener_program(platform), seq!["url.dll,FileProtocolHandler"@, url]),
        _ => (opener_program(platform), seq![url]),
    }
}

/// Refuses any link that does not start with `https://`, so that no other protocol
/// or local file path is handed to the system.
pub fn check_url_scheme(url: &str) -> (r: Result<(), String>)
    ensures
        r is Ok <==> has_prefix(url@, secure_scheme()),
        r matches Err(e) ==> e@ == invalid_scheme_error(),
{
    proof {
        reveal_strlit("https://");
        reveal_strlit("invalid_scheme");
        assert("https://"@ =~= secure_scheme());
        assert("invalid_scheme"@ =~= invalid_scheme_error());
    }
    if starts_with(url, "https://") {
        Ok(())
    } else {
        Err(String::from_str("invalid_scheme"))
    }
}

/// The command that opens `url` in the default browser on `platform`.
pub fn launch_command(platform: Platform, url: &str) -> (r: LaunchCommand)
    ensures
        r@ == launch_command_for(platform, url@),
{
    let mut args: Vec<String> = Vec::new();
    let program = match platform {
        Platform::Windows => {
            args.push(String::from_str("url.dll,FileProtocolHandler"));
            String::from_str("rundll32")
        },
        Platform::MacOs => String::from_str("open"),
        Platform::Other => String::from_str("xdg-open"),
    };
    args.push(String::from_str(url));
    let c = LaunchCommand { program, args };
    proof {
        assert(c@.1 =~= launch_command_for(platform, url@).1);
    }
    c
}

/// Decides how to open an external link: an error for a link that is not
/// `https://`, else the command that hands it to the default browser.
pub fn open_url(url: &str, platform: Platform) -> (r: Result<LaunchCommand, String>)
    ensures
        r is Err <==> !has_prefix(url@, secure_scheme()),
        r matches Err(e) ==> e@ == invalid_scheme_error(),
        r matches Ok(c) ==> c@ == launch_command_for(platform, url@),
{
    match check_url_scheme(url) {
        Err(e) => Err(e),
        Ok(()) => Ok(launch_command(platform, url)),
    }
}

/// A link is accepted exactly when its first eight characters are `https://`.
pub proof fn lemma_accepted_links_start_with_https(url: Seq<char>)
    ensures
        has_prefix(url, secure_scheme()) <==> (url.len() >= 8 && url[0] == 'h' && url[1] == 't' && url[2]
            == 't' && url[3] == 'p' && url[4] == 's' && url[5] == ':' && url[6] == '/' && url[7] == '/'),
{
    if url.len() >= 8 && url[0] == 'h' && url[1] == 't' && url[2] == 't' && url[3] == 'p' && url[4] == 's'
        && url[5] == ':' && url[6] == '/' && url[7] == '/' {
        assert(url.subrange(0, 8) =~= secure_scheme());
    }
    if has_prefix(url, secure_scheme()) {
        assert(url.subrange(0, 8)[0] == url[0]);
        assert(url.subrange(0, 8)[7] == url[7]);
    }
}

/// The opener hands the link on and nothing else: on Windows its arguments are
/// exactly `url.dll,FileProtocolHandler` and the link, elsewhere exactly the link;
/// the program is `rundll32`, `open` or `xdg-open`; and neither the program nor the
/// other arguments depend on the link.
pub proof fn lemma_opener_arguments(platform: Platform, url: Seq<char>, other: Seq<char>)
    ensures
        launch_command_for(platform, url).1 == (if platform == Platform::Windows {
            seq!["url.dll,FileProtocolHandler"@, url]
        } else {
            seq![url]
        }),
        launch_command_for(platform, url).0 == (match platform {
            Platform::Windows => "rundll32"@,
            Platform::MacOs => "open"@,
            Platform::Other => "xdg-open"@,
        }),
        launch_command_for(platform, url).0 == launch_command_for(platform, other).0,
        launch_command_for(platform, url).1.len() == launch_command_for(platform, other).1.len(),
        launch_command_for(platform, url).1.drop_last() == launch_command_for(platform, other).1.drop_last(),
{
    let a = launch_command_for(platform, url).1;
    let b = launch_command_for(platform, other).1;
    assert(a.drop_last() =~= b.drop_last());
}

/// On every platform some program is started for an accepted link, the link is its
/// last argument, unchanged, and no command interpreter is involved.
pub proof fn lemma_link_reaches_opener_unchanged(platform: Platform, url: Seq<char>)
    ensures
        ({
            let c = launch_command_for(platform, url);
            &&& c.1.len() >= 1
            &&& c.1.last() == url
            &&& c.0 == opener_program(platform)
            &&& c.0 != "cmd"@
        }),
{
    reveal_strlit("cmd");
    reveal_strlit("rundll32");
    reveal_strlit("open");
    reveal_strlit("xdg-open");
    assert("cmd"@.len() == 3);
    assert("rundll32"@[0] != "cmd"@[0]);
    assert("open"@[0] != "cmd"@[0]);
    assert("xdg-open"@[0] != "cmd"@[0]);
}

} // verus!
