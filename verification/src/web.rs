//! What the server hands out: the index menu, the post page body, and the
//! port-scan decisions. The routing and the sockets live outside; every
//! decision about content is made here.

use vstd::prelude::*;

use crate::page::{title_spec, LoadOutcome, Page};
use crate::posts::Posts;
use crate::render::html_of;
use crate::timestamp::{four_digits_spec, id_spec, two_digits_spec};

verus! {

/// One index entry: a year marker when the year differs from the previous
/// entry's, a month marker likewise, then the link to the post, titled.
pub open spec fn menu_entry_spec(p: Page, py: Seq<char>, pm: Seq<char>) -> Seq<char> {
    let y = four_digits_spec(p.date.year as int);
    let m = two_digits_spec(p.date.month as int);
    (if y != py {
        "<div class=\"year\">"@ + y + "</div>"@
    } else {
        Seq::<char>::empty()
    }) + (if m != pm {
        "<div class=\"month\">"@ + m + "</div>"@
    } else {
        Seq::<char>::empty()
    }) + "<div class=\"item\"><a href=\"/post/"@ + id_spec(p.date) + "\">"@ + title_spec(p)
        + "</a></div>"@
}

/// The whole index menu: one entry per post in order, each comparing its
/// year and month against the entry before it.
pub open spec fn menu_spec(pages: Seq<Page>, py: Seq<char>, pm: Seq<char>) -> Seq<char>
    decreases pages.len(),
{
    if pages.len() == 0 {
        Seq::<char>::empty()
    } else {
        menu_entry_spec(pages.first(), py, pm) + menu_spec(
            pages.drop_first(),
            four_digits_spec(pages.first().date.year as int),
            two_digits_spec(pages.first().date.month as int),
        )
    }
}

/// Render the index menu of a collection: posts most recent first, year
/// and month headers emitted whenever they change from the entry before.
#[verifier::rlimit(100)]
pub fn home_menu(posts: &Posts) -> (r: String)
    requires
        posts.wf(),
    ensures
        r@ == menu_spec(posts@, Seq::<char>::empty(), Seq::<char>::empty()),
{
    let mut menu = String::new();
    let mut year = String::new();
    let mut month = String::new();
    let n: usize = posts.len();
    let mut i: usize = 0;
    proof {
        assert(posts@.subrange(0, n as int) =~= posts@);
        assert(Seq::<char>::empty() + menu_spec(
            posts@,
            Seq::<char>::empty(),
            Seq::<char>::empty(),
        ) =~= menu_spec(posts@, Seq::<char>::empty(), Seq::<char>::empty()));
    }
    while i < n
        invariant
            0 <= i <= n,
            n == posts@.len(),
            posts.wf(),
            menu_spec(posts@, Seq::<char>::empty(), Seq::<char>::empty()) == menu@ + menu_spec(
                posts@.subrange(i as int, n as int),
                year@,
                month@,
            ),
        decreases n - i,
    {
        let ghost menu0 = menu@;
        let ghost year0 = year@;
        let ghost month0 = month@;
        let ghost tail = posts@.subrange(i as int, n as int);
        let p = posts.get(i);
        let y = p.date.year_string();
        if !(y == year) {
            menu.append("<div class=\"year\">");
            menu.append(y.as_str());
            menu.append("</div>");
            year = y;
        }
        let m = p.date.month_string();
        if !(m == month) {
            menu.append("<div class=\"month\">");
            menu.append(m.as_str());
            menu.append("</div>");
            month = m;
        }
        menu.append("<div class=\"item\"><a href=\"/post/");
        menu.append(p.id().as_str());
        menu.append("\">");
        menu.append(p.title().as_str());
        menu.append("</a></div>");
        proof {
            assert(tail.first() == posts@[i as int]);
            assert(tail.drop_first() =~= posts@.subrange(i as int + 1, n as int));
            assert(year@ == four_digits_spec(posts@[i as int].date.year as int));
            assert(month@ == two_digits_spec(posts@[i as int].date.month as int));
            assert(menu@ =~= menu0 + menu_entry_spec(posts@[i as int], year0, month0));
            assert(menu0 + (menu_entry_spec(posts@[i as int], year0, month0) + menu_spec(
                posts@.subrange(i as int + 1, n as int),
                year@,
                month@,
            )) =~= (menu0 + menu_entry_spec(posts@[i as int], year0, month0)) + menu_spec(
                posts@.subrange(i as int + 1, n as int),
                year@,
                month@,
            ));
        }
        i = i + 1;
    }
    proof {
        assert(posts@.subrange(n as int, n as int) =~= Seq::<Page>::empty());
        assert(menu@ + Seq::<char>::empty() =~= menu@);
    }
    menu
}

/// The file name under the content directory that a requested post
/// identifier names: the identifier with the markdown extension.
pub fn post_file_name(id: &str) -> (r: String)
    ensures
        r@ == id@ + ".md"@,
{
    let mut r = String::from_str(id);
    r.append(".md");
    r
}

/// The body served for a post request: the rendered post when it loaded,
/// the literal not-found fragment when the candidate was no post, and the
/// diagnostic of a malformed document, which the caller must surface.
pub fn post_response(outcome: LoadOutcome) -> (r: Result<String, String>)
    ensures
        (outcome matches LoadOutcome::Valid(p) ==> (r matches Ok(h) && h@ == html_of(p.md@))),
        (outcome is Skipped ==> (r matches Ok(h) && h@ == "<h1>404</h1>"@)),
        (outcome matches LoadOutcome::Malformed(m) ==> r == Err::<String, String>(m)),
{
    match outcome {
        LoadOutcome::Valid(p) => Ok(p.md_html()),
        LoadOutcome::Skipped => Ok(String::from_str("<h1>404</h1>")),
        LoadOutcome::Malformed(m) => Err(m),
    }
}

/// The first port the startup scan tries.
pub const FIRST_PORT: u16 = 3000;

/// The end of the scanned range; never tried itself.
pub const PORT_LIMIT: u16 = 65535;

/// What the startup scan does after probing one port.
#[derive(Debug, PartialEq, Eq)]
pub enum PortProbe {
    Serve(u16),
    Next(u16),
    Exhausted,
}

/// One step of the sequential port scan: serve on the first free port,
/// move to the next port while any remain, give up when the range ends.
pub fn probe_step(port: u16, free: bool) -> (r: PortProbe)
    requires
        FIRST_PORT <= port < PORT_LIMIT,
    ensures
        free ==> r == PortProbe::Serve(port),
        !free && port + 1 < PORT_LIMIT ==> r == PortProbe::Next((port + 1) as u16),
        !free && port + 1 >= PORT_LIMIT ==> r == PortProbe::Exhausted,
{
    if free {
        PortProbe::Serve(port)
    } else if port + 1 < PORT_LIMIT {
        PortProbe::Next(port + 1)
    } else {
        PortProbe::Exhausted
    }
}

} // verus!
