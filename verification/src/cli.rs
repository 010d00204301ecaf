//! What the command line asks for.
use crate::jam::{UiCmd, UiCmdView};
use crate::player::{Backend, BackendView};
use crate::text::{
    all_alnum, alnum, begins, begins_with, byte_len, is_empty, option_view, same, texts,
};
use vstd::prelude::*;
use vstd::utf8::*;

verus! {

/// The bus name's ending where none is given.
pub const DEFAULT_BUS: &'static str = "fastpotify";

/// Whether an argument is there.
pub open spec fn given(args: Seq<Seq<char>>, f: Seq<char>) -> bool {
    args.contains(f)
}

/// The argument behind the first `f`.
pub open spec fn value_of(args: Seq<Seq<char>>, f: Seq<char>) -> Option<Seq<char>>
    decreases args.len(),
{
    if args.len() == 0 {
        None
    } else if args[0] == f {
        if args.len() > 1 {
            Some(args[1])
        } else {
            None
        }
    } else {
        value_of(args.drop_first(), f)
    }
}

/// Whether an argument can be the code of a Jam: up to eight letters and digits, and no option.
pub open spec fn is_code(a: Seq<char>) -> bool {
    !begins(a, "--"@) && encode_utf8(a).len() <= 8 && forall|i: int|
        0 <= i < a.len() ==> alnum(#[trigger] a[i])
}

/// Whether an option has the argument behind it for its value.
pub open spec fn takes_value(a: Seq<char>) -> bool {
    a == "--name"@ || a == "--backend"@ || a == "--mpris"@
}

/// The first argument that can be the code of a Jam and is no option's value; none is empty.
pub open spec fn code_of(args: Seq<Seq<char>>) -> Seq<char>
    decreases args.len(),
{
    if args.len() == 0 {
        Seq::empty()
    } else if takes_value(args[0]) {
        if args.len() == 1 {
            Seq::empty()
        } else {
            code_of(args.skip(2))
        }
    } else if is_code(args[0]) {
        args[0]
    } else {
        code_of(args.drop_first())
    }
}

/// The place of an argument.
fn position(args: &Vec<String>, f: &str) -> (r: Option<usize>)
    ensures
        match r {
            Some(i) => i < args@.len() && given(texts(args@), f@) && value_of(texts(args@), f@)
                == if i + 1 < args@.len() {
                Some(args@[i + 1]@)
            } else {
                None
            },
            None => !given(texts(args@), f@) && value_of(texts(args@), f@) is None,
        },
{
    let ghost v = texts(args@);
    let n: usize = args.len();
    let mut i: usize = 0;
    assert(v.skip(0) =~= v);
    while i < n
        invariant
            n == args@.len(),
            i <= n,
            v == texts(args@),
            forall|k: int| 0 <= k < i ==> (#[trigger] v[k]) != f@,
            value_of(v, f@) == value_of(v.skip(i as int), f@),
        decreases n - i,
    {
        assert(v[i as int] == args@[i as int]@);
        if same(args[i].as_str(), f) {
            assert(v.contains(f@));
            assert(v.skip(i as int)[0] == f@);
            return Some(i);
        }
        assert(v.skip(i as int).drop_first() =~= v.skip(i as int + 1));
        i = i + 1;
    }
    None
}

/// The argument behind the first `f`.
fn value(args: &Vec<String>, f: &str) -> (r: Option<String>)
    ensures
        option_view(r) == value_of(texts(args@), f@),
{
    match position(args, f) {
        Some(i) => {
            if i < args.len() - 1 {
                Some(args[i + 1].clone())
            } else {
                None
            }
        },
        None => None,
    }
}

/// Whether the program runs without a window.
pub fn is_headless(args: &Vec<String>) -> (r: bool)
    ensures
        r == given(texts(args@), "--headless"@),
{
    position(args, "--headless").is_some()
}

/// The first argument behind the program's name that can be the code of a Jam and is no option's
/// value.
fn find_code(args: &Vec<String>) -> (r: String)
    ensures
        r@ == code_of(
            if args@.len() > 0 {
                texts(args@).skip(1)
            } else {
                texts(args@)
            },
        ),
{
    let ghost v = texts(args@);
    let n: usize = args.len();
    if n == 0 {
        return String::new();
    }
    let mut i: usize = 1;
    while i < n
        invariant
            n == args@.len(),
            1 <= i <= n,
            v == texts(args@),
            code_of(v.skip(1)) == code_of(v.skip(i as int)),
        decreases n - i,
    {
        assert(v.skip(i as int)[0] == args@[i as int]@);
        let a = args[i].as_str();
        if same(a, "--name") || same(a, "--backend") || same(a, "--mpris") {
            if i == n - 1 {
                return String::new();
            }
            assert(v.skip(i as int).skip(2) =~= v.skip(i as int + 2));
            i = i + 2;
            continue;
        }
        if !begins_with(a, "--") && byte_len(a) <= 8 && all_alnum(a) {
            return args[i].clone();
        }
        assert(v.skip(i as int).drop_first() =~= v.skip(i as int + 1));
        i = i + 1;
    }
    String::new()
}

/// What the program does without a window.
#[derive(Debug)]
pub struct Headless {
    pub backend: Backend,
    pub dry_run: bool,
    /// What is done first; nothing where the arguments do not say.
    pub cmd: Option<UiCmd>,
}

/// What the program does without a window.
pub struct HeadlessView {
    pub backend: BackendView,
    pub dry_run: bool,
    pub cmd: Option<UiCmdView>,
}

impl View for Headless {
    type V = HeadlessView;

    open spec fn view(&self) -> HeadlessView {
        HeadlessView {
            backend: self.backend@,
            dry_run: self.dry_run,
            cmd: option_view(self.cmd),
        }
    }
}

/// The first of two texts that is there, or else a third one.
pub open spec fn first_of(
    a: Option<Seq<char>>,
    b: Option<Seq<char>>,
    default: Seq<char>,
) -> Seq<char> {
    match (a, b) {
        (Some(s), _) => s,
        (None, Some(s)) => s,
        (None, None) => default,
    }
}

/// The first of two texts that is there, or else a third one.
fn first(a: Option<String>, b: Option<String>, default: &str) -> (r: String)
    ensures
        r@ == first_of(option_view(a), option_view(b), default@),
{
    match a {
        Some(s) => s,
        None => match b {
            Some(s) => s,
            None => default.to_owned(),
        },
    }
}

/// The player that the arguments and the environment ask for.
pub open spec fn backend_of(args: Seq<Seq<char>>, mpris: Option<Seq<char>>) -> BackendView {
    let usual = BackendView::Spotifast {
        bus_suffix: first_of(value_of(args, "--mpris"@), mpris, DEFAULT_BUS@),
    };
    match value_of(args, "--backend"@) {
        Some(b) => if b == "cliamp"@ {
            BackendView::Cliamp
        } else if b == "spotifastwin"@ {
            BackendView::SpotifastWin
        } else if b == "spotifast"@ {
            usual
        } else {
            BackendView::Spotifast { bus_suffix: b }
        },
        None => usual,
    }
}

/// What the arguments and the environment ask for: to host, with the code where there is one, or
/// to join, for which there has to be a code.
pub open spec fn headless_of(
    args: Seq<Seq<char>>,
    mpris: Option<Seq<char>>,
    user: Option<Seq<char>>,
) -> HeadlessView {
    let name = first_of(value_of(args, "--name"@), user, "jam"@);
    let code = code_of(
        if args.len() > 0 {
            args.skip(1)
        } else {
            args
        },
    );
    HeadlessView {
        backend: backend_of(args, mpris),
        dry_run: given(args, "--dry-run"@),
        cmd: if given(args, "--host"@) {
            Some(
                UiCmdView::Host {
                    name,
                    gc: given(args, "--gc"@),
                    code: if code.len() == 0 {
                        None
                    } else {
                        Some(code)
                    },
                },
            )
        } else if code.len() == 0 {
            None
        } else {
            Some(UiCmdView::Join { code, name })
        },
    }
}

/// The player that the arguments and the environment ask for.
fn read_backend(args: &Vec<String>, mpris: Option<String>) -> (r: Backend)
    ensures
        r@ == backend_of(texts(args@), option_view(mpris)),
{
    let bus_suffix = first(value(args, "--mpris"), mpris, DEFAULT_BUS);
    match value(args, "--backend") {
        Some(b) => if same(b.as_str(), "cliamp") {
            Backend::Cliamp
        } else if same(b.as_str(), "spotifastwin") {
            Backend::SpotifastWin
        } else if same(b.as_str(), "spotifast") {
            Backend::Spotifast { bus_suffix }
        } else {
            Backend::Spotifast { bus_suffix: b }
        },
        None => Backend::Spotifast { bus_suffix },
    }
}

/// What the arguments and the environment ask for: the ending of the bus name and the user's
/// name are those of the environment.
pub fn headless(args: &Vec<String>, mpris: Option<String>, user: Option<String>) -> (r: Headless)
    ensures
        r@ == headless_of(texts(args@), option_view(mpris), option_view(user)),
{
    let name = first(value(args, "--name"), user, "jam");
    let code = find_code(args);
    let backend = read_backend(args, mpris);
    let dry_run = position(args, "--dry-run").is_some();
    let cmd = if position(args, "--host").is_some() {
        let gc = position(args, "--gc").is_some();
        let code = if is_empty(code.as_str()) {
            None
        } else {
            Some(code)
        };
        Some(UiCmd::Host { name, gc, code })
    } else if is_empty(code.as_str()) {
        None
    } else {
        Some(UiCmd::Join { code, name })
    };
    Headless { backend, dry_run, cmd }
}

/// The value of an option is the argument behind the first place of the option.
pub proof fn law_value_stands_behind_its_option(args: Seq<Seq<char>>, f: Seq<char>, i: int)
    requires
        0 <= i < args.len(),
        args[i] == f,
        forall|j: int| 0 <= j < i ==> (#[trigger] args[j]) != f,
    ensures
        value_of(args, f) == if i + 1 < args.len() {
            Some(args[i + 1])
        } else {
            None
        },
    decreases args.len(),
{
    if i > 0 {
        let r = args.drop_first();
        assert(args[0] != f);
        assert forall|j: int| 0 <= j < i - 1 implies (#[trigger] r[j]) != f by {
            assert(r[j] == args[j + 1]);
        }
        law_value_stands_behind_its_option(r, f, i - 1);
    }
}

/// An option that is not there has no value.
pub proof fn law_missing_option_has_no_value(args: Seq<Seq<char>>, f: Seq<char>)
    requires
        !args.contains(f),
    ensures
        value_of(args, f) is None,
    decreases args.len(),
{
    if args.len() > 0 {
        assert(args[0] != f);
        let r = args.drop_first();
        if r.contains(f) {
            let j = choose|j: int| 0 <= j < r.len() && r[j] == f;
            assert(args[j + 1] == f);
        }
        law_missing_option_has_no_value(r, f);
    }
}

/// The code of a Jam is the first argument that can be one; options and their values are passed
/// over.
pub proof fn law_code_is_the_first_that_can_be_one(a: Seq<char>, v: Seq<char>, rest: Seq<Seq<char>>)
    ensures
        code_of(Seq::empty()) == Seq::<char>::empty(),
        a == "--name"@ || a == "--backend"@ || a == "--mpris"@ ==> {
            &&& code_of(seq![a, v] + rest) == code_of(rest)
            &&& code_of(seq![a]) == Seq::<char>::empty()
        },
        a != "--name"@ && a != "--backend"@ && a != "--mpris"@ ==> code_of(seq![a] + rest) == if {
            &&& !begins(a, "--"@)
            &&& encode_utf8(a).len() <= 8
            &&& forall|i: int|
                0 <= i < a.len() ==> 'a' <= (#[trigger] a[i]) <= 'z' || 'A' <= a[i] <= 'Z' || '0'
                    <= a[i] <= '9'
        } {
            a
        } else {
            code_of(rest)
        },
{
    assert((seq![a, v] + rest).skip(2) =~= rest);
    assert((seq![a] + rest).drop_first() =~= rest);
    assert(is_code(a) <==> {
        &&& !begins(a, "--"@)
        &&& encode_utf8(a).len() <= 8
        &&& forall|i: int|
            0 <= i < a.len() ==> 'a' <= (#[trigger] a[i]) <= 'z' || 'A' <= a[i] <= 'Z' || '0'
                <= a[i] <= '9'
    });
}

/// Without a window a Jam is hosted where that is asked for, else one is joined where there is a
/// code; names come from the command line first, then from the environment.
pub proof fn law_command_line_is_followed(
    args: Seq<Seq<char>>,
    mpris: Option<Seq<char>>,
    user: Option<Seq<char>>,
)
    requires
        args.len() > 0,
    ensures
        ({
            let h = headless_of(args, mpris, user);
            let code = code_of(args.skip(1));
            let name = match value_of(args, "--name"@) {
                Some(n) => n,
                None => match user {
                    Some(u) => u,
                    None => "jam"@,
                },
            };
            &&& h.dry_run <==> args.contains("--dry-run"@)
            &&& args.contains("--host"@) ==> h.cmd == Some(
                UiCmdView::Host {
                    name,
                    gc: args.contains("--gc"@),
                    code: if code.len() > 0 {
                        Some(code)
                    } else {
                        None
                    },
                },
            )
            &&& !args.contains("--host"@) && code.len() > 0 ==> h.cmd == Some(
                UiCmdView::Join { code, name },
            )
            &&& !args.contains("--host"@) && code.len() == 0 ==> h.cmd is None
        }),
{
}

/// The player is the one that the command line names, else one on the session bus under the name
/// that the command line or the environment gives.
pub proof fn law_player_is_the_one_that_is_named(
    args: Seq<Seq<char>>,
    mpris: Option<Seq<char>>,
    user: Option<Seq<char>>,
)
    ensures
        ({
            let b = headless_of(args, mpris, user).backend;
            let named = value_of(args, "--backend"@);
            let bus = match value_of(args, "--mpris"@) {
                Some(s) => s,
                None => match mpris {
                    Some(s) => s,
                    None => "fastpotify"@,
                },
            };
            &&& named == Some("cliamp"@) ==> b == BackendView::Cliamp
            &&& named == Some("spotifastwin"@) ==> b == BackendView::SpotifastWin
            &&& named is None || named == Some("spotifast"@) ==> b == (BackendView::Spotifast {
                bus_suffix: bus,
            })
            &&& named matches Some(n) ==> (n != "cliamp"@ && n != "spotifastwin"@ && n
                != "spotifast"@ ==> b == (BackendView::Spotifast { bus_suffix: n }))
        }),
{
    reveal_strlit("cliamp");
    reveal_strlit("spotifastwin");
    reveal_strlit("spotifast");
    assert("cliamp"@.len() == 6);
    assert("spotifastwin"@.len() == 12);
    assert("spotifast"@.len() == 9);
}

} // verus!
