//! The Browser's debugging endpoint and what its replies say of pages: where the
//! endpoint is, which pages there are, and what a page shows.
use crate::browser_error;
use crate::browser_error::BrowserError;
use crate::json;
use crate::json::{add_field, number_value, optional_text, text_value, JsonValue};
use crate::text;
use crate::text::{
    byte_count, clip_bytes, decimal_text, has_char, has_prefix, is_one_of, is_text, lines, parse_u16,
    same_text,
};
use vstd::prelude::*;
use vstd::string::*;

verus! {

// ---- Launching -------------------------------------------------------------------

/// The port and the path that a Browser announces in its port file.
pub open spec fn announced(contents: Seq<char>) -> Option<(u16, Seq<char>)> {
    let all = text::lines_of(contents);
    if all.len() < 2 {
        None
    } else {
        match text::u16_of(all[0]) {
            Some(port) => if port != 0 && text::begins_with(all[1], "/devtools/browser/"@)
                && !all[1].contains('\r') && !all[1].contains('\n') {
                Some((port, all[1]))
            } else {
                None
            },
            None => None,
        }
    }
}

/// The port and the path that a Browser announces in its port file: a port other
/// than zero, and the path of a browser endpoint, never a whole address.
pub fn parse_devtools_active_port(contents: &str) -> (endpoint: Option<(u16, String)>)
    ensures
        match endpoint {
            Some(found) => announced(contents@) == Some((found.0, found.1@)),
            None => announced(contents@) is None,
        },
{
    let mut all = lines(contents);
    proof {
        assert(text::texts(all@) == text::lines_of(contents@));
    }
    if all.len() < 2 {
        return None;
    }
    assert(text::texts(all@)[0] == all@[0]@ && text::texts(all@)[1] == all@[1]@);
    let port = match parse_u16(all[0].as_str()) {
        Some(port) => port,
        None => {
            return None;
        },
    };
    let path = all.remove(1);
    if port == 0 || !has_prefix(path.as_str(), "/devtools/browser/") || has_char(
        path.as_str(),
        '\r',
    ) || has_char(path.as_str(), '\n') {
        return None;
    }
    Some((port, path))
}

/// What a look at a Browser that was started shows.
#[derive(Debug)]
pub enum LaunchPoll {
    /// The endpoint is announced.
    Ready { port: u16, path: String },
    /// Nothing yet: look again.
    Wait,
    /// The Browser has to be cleaned up.
    Failed(BrowserError),
}

/// The failure of a Browser that ended before it was ready.
pub open spec fn launch_ended() -> browser_error::BrowserErrorView {
    browser_error::not_started_error(
        "launch_failed"@,
        "Browser exited before loopback CDP became ready"@,
    )
}

/// The failure of a Browser that was not ready in time.
pub open spec fn launch_timed_out() -> browser_error::BrowserErrorView {
    browser_error::not_started_error(
        "launch_timeout"@,
        "Browser did not expose loopback CDP before launch timeout"@,
    )
}

/// What a look at a Browser that was started shows: its port file where it could
/// be read, whether it ended and whether its time is over. An announced endpoint
/// counts before anything else.
pub fn launch_poll(contents: Option<&str>, ended: bool, timed_out: bool) -> (poll: LaunchPoll)
    ensures
        ({
            let endpoint = match contents {
                Some(held) => announced(held@),
                None => None,
            };
            match poll {
                LaunchPoll::Ready { port, path } => endpoint == Some((port, path@)),
                LaunchPoll::Failed(error) => endpoint is None && (ended || timed_out) && error@
                    == if ended {
                    launch_ended()
                } else {
                    launch_timed_out()
                },
                LaunchPoll::Wait => endpoint is None && !ended && !timed_out,
            }
        }),
{
    if let Some(held) = contents {
        if let Some((port, path)) = parse_devtools_active_port(held) {
            return LaunchPoll::Ready { port, path };
        }
    }
    if ended {
        return LaunchPoll::Failed(
            BrowserError::not_started(
                "launch_failed",
                "Browser exited before loopback CDP became ready",
            ),
        );
    }
    if timed_out {
        return LaunchPoll::Failed(
            BrowserError::not_started(
                "launch_timeout",
                "Browser did not expose loopback CDP before launch timeout",
            ),
        );
    }
    LaunchPoll::Wait
}

// ---- Endpoints -------------------------------------------------------------------

/// The parts of an address that the rules read.
#[derive(Debug)]
pub struct UrlParts {
    pub address: String,
    pub host: Option<String>,
    pub port: Option<u16>,
}

/// The normal form of an address, its host and its port, as `url::Url::parse`
/// reads it; nothing where it reads none.
pub uninterp spec fn url_parts(address: Seq<char>) -> Option<
    (Seq<char>, Option<Seq<char>>, Option<u16>),
>;

/// What [`UrlParts`] stand for.
pub open spec fn parts_view(parts: Option<UrlParts>) -> Option<
    (Seq<char>, Option<Seq<char>>, Option<u16>),
> {
    match parts {
        Some(held) => Some((held.address@, text::text_of(held.host), held.port)),
        None => None,
    }
}

/// `url::Url::parse`, and of its result `as_str`, `host_str` and `port`: they
/// depend on the address alone.
#[verifier::external_body]
fn read_url(address: &str) -> (parts: Option<UrlParts>)
    ensures
        parts_view(parts) == url_parts(address@),
{
    let parsed = url::Url::parse(address).ok()?;
    Some(
        UrlParts {
            address: parsed.as_str().to_string(),
            host: parsed.host_str().map(str::to_string),
            port: parsed.port(),
        },
    )
}

/// Whether the parts of an address are those of an endpoint on this machine.
pub open spec fn is_loopback(
    parts: (Seq<char>, Option<Seq<char>>, Option<u16>),
    allow_name: bool,
) -> bool {
    parts.1 == Some("127.0.0.1"@) || (allow_name && parts.1 == Some("localhost"@))
}

/// The failure of a Browser whose endpoint is unusable.
pub open spec fn browser_endpoint_error(readable: bool) -> browser_error::BrowserErrorView {
    browser_error::not_started_error(
        "cdp_endpoint_invalid"@,
        if readable {
            "Browser CDP endpoint was not loopback"@
        } else {
            "Browser returned an invalid loopback CDP endpoint"@
        },
    )
}

/// Accepts the endpoint of a Browser: only one on this machine, by number.
pub fn accept_browser_endpoint(parts: Option<UrlParts>) -> (result: Result<UrlParts, BrowserError>)
    ensures
        match result {
            Ok(endpoint) => parts == Some(endpoint) && is_loopback(
                parts_view(parts)->Some_0,
                false,
            ),
            Err(error) => error@ == browser_endpoint_error(parts is Some) && !(parts_view(
                parts,
            ) matches Some(held) && is_loopback(held, false)),
        },
{
    match parts {
        Some(endpoint) => if is_text(text::as_text(&endpoint.host), "127.0.0.1") {
            Ok(endpoint)
        } else {
            Err(
                BrowserError::not_started(
                    "cdp_endpoint_invalid",
                    "Browser CDP endpoint was not loopback",
                ),
            )
        },
        None => Err(
            BrowserError::not_started(
                "cdp_endpoint_invalid",
                "Browser returned an invalid loopback CDP endpoint",
            ),
        ),
    }
}

/// The address of a Browser's endpoint.
pub open spec fn browser_address(port: u16, path: Seq<char>) -> Seq<char> {
    "ws://127.0.0.1:"@ + text::decimal(port as nat) + path
}

/// The endpoint of a Browser that announced a port and a path.
pub fn browser_endpoint(port: u16, path: &str) -> (result: Result<UrlParts, BrowserError>)
    ensures
        ({
            let parts = url_parts(browser_address(port, path@));
            match result {
                Ok(endpoint) => parts_view(Some(endpoint)) == parts && is_loopback(
                    parts->Some_0,
                    false,
                ),
                Err(error) => error@ == browser_endpoint_error(parts is Some) && !(parts matches Some(
                    held,
                ) && is_loopback(held, false)),
            }
        }),
{
    let mut address = "ws://127.0.0.1:".to_owned();
    address.append(decimal_text(port as u64).as_str());
    address.append(path);
    accept_browser_endpoint(read_url(address.as_str()))
}

/// The address at which a Browser lists its pages.
pub open spec fn list_address(port: Option<u16>) -> Seq<char> {
    "http://127.0.0.1:"@ + text::decimal(
        match port {
            Some(port) => port as nat,
            None => 0,
        },
    ) + "/json/list"@
}

/// The address at which a Browser lists its pages.
pub fn page_list_address(endpoint: &UrlParts) -> (address: String)
    ensures
        address@ == list_address(endpoint.port),
{
    let port: u16 = match endpoint.port {
        Some(port) => port,
        None => 0,
    };
    let mut address = "http://127.0.0.1:".to_owned();
    address.append(decimal_text(port as u64).as_str());
    address.append("/json/list");
    address
}

/// The first entry of a list with the identifier `target_id`.
pub open spec fn entry_of(list: Seq<json::JsonView>, target_id: Seq<char>) -> Option<json::JsonView>
    decreases list.len(),
{
    if list.len() == 0 {
        None
    } else if list[0].text_field("id"@) == Some(target_id) {
        Some(list[0])
    } else {
        entry_of(list.drop_first(), target_id)
    }
}

/// The address of a page's endpoint, where the list holds it.
pub open spec fn page_address(list: Seq<json::JsonView>, target_id: Seq<char>) -> Option<Seq<char>> {
    match entry_of(list, target_id) {
        Some(entry) => entry.text_field("webSocketDebuggerUrl"@),
        None => None,
    }
}

fn find_page_address<'a>(list: &'a Vec<JsonValue>, target_id: &str) -> (address: Option<&'a str>)
    ensures
        text::str_of(address) == page_address(json::items_view(list@), target_id@),
{
    let ghost all = json::items_view(list@);
    let mut i: usize = 0;
    assert(all.skip(0) =~= all);
    while i < list.len()
        invariant
            i <= list@.len(),
            all == json::items_view(list@),
            entry_of(all, target_id@) == entry_of(all.skip(i as int), target_id@),
        decreases list@.len() - i,
    {
        if is_text(list[i].text_field("id"), target_id) {
            return list[i].text_field("webSocketDebuggerUrl");
        }
        assert(all.skip(i as int).drop_first() =~= all.skip(i + 1));
        i = i + 1;
    }
    None
}

/// The failure of a page that is gone.
pub open spec fn stale_page() -> browser_error::BrowserErrorView {
    browser_error::not_started_error("stale_page"@, "page target is no longer available"@)
}

/// The failure of a page whose endpoint is unusable.
pub open spec fn page_endpoint_error(readable: bool) -> browser_error::BrowserErrorView {
    browser_error::observed_error(
        "cdp_endpoint_invalid"@,
        if readable {
            "page CDP endpoint is not loopback"@
        } else {
            "page CDP endpoint is invalid"@
        },
        None,
    )
}

/// Accepts the endpoint of a page: only one on this machine.
pub fn accept_page_endpoint(parts: Option<UrlParts>) -> (result: Result<UrlParts, BrowserError>)
    ensures
        match result {
            Ok(endpoint) => parts == Some(endpoint) && is_loopback(
                parts_view(parts)->Some_0,
                true,
            ),
            Err(error) => error@ == page_endpoint_error(parts is Some) && !(parts_view(
                parts,
            ) matches Some(held) && is_loopback(held, true)),
        },
{
    match parts {
        Some(endpoint) => {
            let host = text::as_text(&endpoint.host);
            if is_text(host, "127.0.0.1") || is_text(host, "localhost") {
                Ok(endpoint)
            } else {
                Err(
                    BrowserError::observed(
                        "cdp_endpoint_invalid",
                        "page CDP endpoint is not loopback",
                        None,
                    ),
                )
            }
        },
        None => Err(
            BrowserError::observed("cdp_endpoint_invalid", "page CDP endpoint is invalid", None),
        ),
    }
}

/// The endpoint of a page, out of the Browser's list.
pub fn page_endpoint(list: &Vec<JsonValue>, target_id: &str) -> (result: Result<
    UrlParts,
    BrowserError,
>)
    ensures
        match page_address(json::items_view(list@), target_id@) {
            None => result matches Err(error) && error@ == stale_page(),
            Some(address) => match result {
                Ok(endpoint) => parts_view(Some(endpoint)) == url_parts(address) && is_loopback(
                    url_parts(address)->Some_0,
                    true,
                ),
                Err(error) => error@ == page_endpoint_error(url_parts(address) is Some) && !(
                url_parts(address) matches Some(held) && is_loopback(held, true)),
            },
        },
{
    match find_page_address(list, target_id) {
        Some(address) => accept_page_endpoint(read_url(address)),
        None => Err(BrowserError::not_started("stale_page", "page target is no longer available")),
    }
}

// ---- Pages -----------------------------------------------------------------------

/// A page of a Browser.
#[derive(Debug)]
pub struct BackendPage {
    pub target_id: String,
    pub title: String,
    pub url: String,
    pub document_id: String,
}

/// What a [`BackendPage`] stands for.
pub struct PageView {
    pub target_id: Seq<char>,
    pub title: Seq<char>,
    pub url: Seq<char>,
    pub document_id: Seq<char>,
}

impl View for BackendPage {
    type V = PageView;

    open spec fn view(&self) -> PageView {
        PageView {
            target_id: self.target_id@,
            title: self.title@,
            url: self.url@,
            document_id: self.document_id@,
        }
    }
}

/// A text, or what stands for it where there is none.
pub open spec fn text_or(held: Option<Seq<char>>, default: Seq<char>) -> Seq<char> {
    match held {
        Some(held) => held,
        None => default,
    }
}

/// The page that an entry of the list describes, where it describes one.
pub open spec fn page_of(entry: json::JsonView) -> Option<PageView> {
    match entry.text_field("id"@) {
        Some(target_id) => if entry.text_field("type"@) == Some("page"@) {
            Some(
                PageView {
                    target_id,
                    title: text_or(entry.text_field("title"@), Seq::empty()),
                    url: text_or(entry.text_field("url"@), Seq::empty()),
                    document_id: text_or(entry.text_field("url"@), "about:blank"@),
                },
            )
        } else {
            None
        },
        None => None,
    }
}

/// The pages that a list describes, in its order.
pub open spec fn pages_of(list: Seq<json::JsonView>) -> Seq<PageView>
    decreases list.len(),
{
    if list.len() == 0 {
        Seq::empty()
    } else {
        match page_of(list.last()) {
            Some(page) => pages_of(list.drop_last()).push(page),
            None => pages_of(list.drop_last()),
        }
    }
}

/// The first `count` of a list, or all of it.
pub open spec fn leading<T>(all: Seq<T>, count: int) -> Seq<T> {
    if all.len() > count {
        all.take(count)
    } else {
        all
    }
}

/// What pages stand for.
pub open spec fn pages_view(pages: Seq<BackendPage>) -> Seq<PageView> {
    Seq::new(pages.len(), |i: int| pages[i]@)
}

fn own_or(held: Option<&str>, default: &str) -> (result: String)
    ensures
        result@ == text_or(text::str_of(held), default@),
{
    match held {
        Some(held) => held.to_owned(),
        None => default.to_owned(),
    }
}

fn read_page(entry: &JsonValue) -> (page: Option<BackendPage>)
    ensures
        match page {
            Some(found) => page_of(entry@) == Some(found@),
            None => page_of(entry@) is None,
        },
{
    if !is_text(entry.text_field("type"), "page") {
        return None;
    }
    let target_id = match entry.text_field("id") {
        Some(target_id) => target_id,
        None => {
            return None;
        },
    };
    let title = own_or(entry.text_field("title"), "");
    let url = own_or(entry.text_field("url"), "");
    proof {
        reveal_strlit("");
        assert(""@ =~= Seq::<char>::empty());
    }
    Some(
        BackendPage {
            target_id: target_id.to_owned(),
            title,
            url,
            document_id: own_or(entry.text_field("url"), "about:blank"),
        },
    )
}

proof fn lemma_pages_grow(list: Seq<json::JsonView>, n: int)
    requires
        0 <= n <= list.len(),
    ensures
        pages_of(list.take(n)).len() <= pages_of(list).len(),
        pages_of(list.take(n)) =~= pages_of(list).take(pages_of(list.take(n)).len() as int),
    decreases list.len(),
{
    if n == list.len() {
        assert(list.take(n) =~= list);
    } else {
        let front = list.drop_last();
        lemma_pages_grow(front, n);
        assert(front.take(n) =~= list.take(n));
    }
}

/// How many pages a limit lets through. The limit is looked at behind a page, so
/// that the first always goes through.
pub open spec fn page_limit(max_pages: usize) -> int {
    if max_pages == 0 {
        1
    } else {
        max_pages as int
    }
}

/// The pages that a list describes, at most `max_pages` of them, but the first
/// always.
pub fn page_list(list: &Vec<JsonValue>, max_pages: usize) -> (pages: Vec<BackendPage>)
    ensures
        pages_view(pages@) == leading(pages_of(json::items_view(list@)), page_limit(max_pages)),
{
    let ghost all = json::items_view(list@);
    let mut pages: Vec<BackendPage> = Vec::new();
    let mut i: usize = 0;
    assert(all.take(0) =~= Seq::<json::JsonView>::empty());
    assert(pages_view(pages@) =~= pages_of(all.take(0)));
    while i < list.len()
        invariant
            i <= list@.len(),
            all == json::items_view(list@),
            pages_view(pages@) == pages_of(all.take(i as int)),
            pages@.len() < page_limit(max_pages),
        decreases list@.len() - i,
    {
        let ghost before = pages_view(pages@);
        assert(all.take(i + 1).drop_last() =~= all.take(i as int));
        assert(all.take(i + 1).last() == list@[i as int]@);
        if let Some(page) = read_page(&list[i]) {
            let ghost held = page@;
            pages.push(page);
            assert(pages_view(pages@) =~= before.push(held));
            if pages.len() >= max_pages {
                proof {
                    lemma_pages_grow(all, i + 1);
                    assert(pages_view(pages@) =~= leading(pages_of(all), page_limit(max_pages)));
                }
                return pages;
            }
        }
        i = i + 1;
    }
    assert(all.take(i as int) =~= all);
    pages
}

/// The identity of the document that a page shows.
pub open spec fn loader_of(tree: json::JsonView) -> Option<Seq<char>> {
    match tree.get_within("frameTree"@, "frame"@) {
        Some(frame) => frame.text_field("loaderId"@),
        None => None,
    }
}

/// The identity of the document that a page shows, out of its frame tree.
pub fn loader_id(tree: &JsonValue) -> (id: Option<&str>)
    ensures
        text::str_of(id) == loader_of(tree@),
{
    match tree.get_within("frameTree", "frame") {
        Some(frame) => frame.text_field("loaderId"),
        None => None,
    }
}

/// A page with the identity of its document, where its frame tree could be read
/// and holds it.
pub fn with_loader(page: BackendPage, tree: Option<&JsonValue>) -> (result: BackendPage)
    ensures
        result@ == (PageView {
            document_id: match tree {
                Some(tree) => text_or(loader_of(tree@), page@.document_id),
                None => page@.document_id,
            },
            ..page@
        }),
{
    let mut result = page;
    if let Some(tree) = tree {
        if let Some(id) = loader_id(tree) {
            result.document_id = id.to_owned();
        }
    }
    result
}

/// The page that was created, out of the Browser's reply.
pub fn created_page(reply: &JsonValue) -> (result: Result<String, BrowserError>)
    ensures
        match result {
            Ok(target_id) => reply@.text_field("targetId"@) == Some(target_id@),
            Err(error) => reply@.text_field("targetId"@) is None && error@
                == browser_error::uncertain_error(
                "create_page_result_invalid"@,
                "CDP did not return targetId after page creation"@,
                "pages"@,
            ),
        },
{
    match reply.text_field("targetId") {
        Some(target_id) => Ok(target_id.to_owned()),
        None => Err(
            BrowserError::uncertain(
                "create_page_result_invalid",
                "CDP did not return targetId after page creation",
                "pages",
            ),
        ),
    }
}

/// The picture out of the reply to a request for one.
pub fn screenshot_data(reply: &JsonValue) -> (result: Result<String, BrowserError>)
    ensures
        match result {
            Ok(data) => reply@.text_field("data"@) == Some(data@),
            Err(error) => reply@.text_field("data"@) is None && error@
                == browser_error::observed_error(
                "invalid_image"@,
                "CDP screenshot response had no data"@,
                None,
            ),
        },
{
    match reply.text_field("data") {
        Some(data) => Ok(data.to_owned()),
        None => Err(
            BrowserError::observed("invalid_image", "CDP screenshot response had no data", None),
        ),
    }
}

// ---- What a page shows -------------------------------------------------------------

/// The bounds of a snapshot.
#[derive(Debug, Clone, Copy)]
pub struct SnapshotLimits {
    pub max_nodes: usize,
    pub max_bytes: usize,
    pub max_text_bytes: usize,
}

/// An element of a page.
#[derive(Debug)]
pub struct BackendNode {
    pub role: String,
    pub name: Option<String>,
    pub value: Option<String>,
    pub backend_node_id: Option<i64>,
    pub actionable: bool,
}

/// What a [`BackendNode`] stands for.
pub struct NodeView {
    pub role: Seq<char>,
    pub name: Option<Seq<char>>,
    pub value: Option<Seq<char>>,
    pub backend_node_id: Option<i64>,
    pub actionable: bool,
}

impl View for BackendNode {
    type V = NodeView;

    open spec fn view(&self) -> NodeView {
        NodeView {
            role: self.role@,
            name: text::text_of(self.name),
            value: text::text_of(self.value),
            backend_node_id: self.backend_node_id,
            actionable: self.actionable,
        }
    }
}

/// The elements of a page.
#[derive(Debug)]
pub struct BackendSnapshot {
    pub document_id: String,
    pub nodes: Vec<BackendNode>,
    pub truncated: bool,
}

/// The roles of elements that can be acted on.
pub open spec fn actionable_role(role: Seq<char>) -> bool {
    role == "button"@ || role == "link"@ || role == "textbox"@ || role == "searchbox"@ || role
        == "combobox"@ || role == "checkbox"@ || role == "radio"@ || role == "switch"@ || role
        == "menuitem"@ || role == "tab"@ || role == "option"@
}

/// Whether an element of this role can be acted on.
pub fn is_actionable(role: &str) -> (found: bool)
    ensures
        found == actionable_role(role@),
{
    let roles: [&str; 11] = [
        "button",
        "link",
        "textbox",
        "searchbox",
        "combobox",
        "checkbox",
        "radio",
        "switch",
        "menuitem",
        "tab",
        "option",
    ];
    let found = is_one_of(role, roles.as_slice());
    proof {
        assert(roles@[0]@ == "button"@ && roles@[1]@ == "link"@ && roles@[2]@ == "textbox"@
            && roles@[3]@ == "searchbox"@ && roles@[4]@ == "combobox"@ && roles@[5]@ == "checkbox"@
            && roles@[6]@ == "radio"@ && roles@[7]@ == "switch"@ && roles@[8]@ == "menuitem"@
            && roles@[9]@ == "tab"@ && roles@[10]@ == "option"@);
    }
    found
}

/// A property of an element, cut to `max_bytes` bytes.
pub open spec fn property_of(node: json::JsonView, key: Seq<char>, max_bytes: usize) -> Option<
    Seq<char>,
> {
    match node.get(key) {
        Some(held) => match held.text_field("value"@) {
            Some(value) => Some(text::clipped(value, max_bytes as nat)),
            None => None,
        },
        None => None,
    }
}

/// A property of an element, cut to `max_bytes` bytes.
pub fn ax_value(node: &JsonValue, key: &str, max_bytes: usize) -> (value: Option<String>)
    ensures
        text::text_of(value) == property_of(node@, key@, max_bytes),
{
    match node.get(key) {
        Some(held) => match held.text_field("value") {
            Some(value) => Some(clip_bytes(value, max_bytes)),
            None => None,
        },
        None => None,
    }
}

/// The element that a node describes; nothing for the root of the page.
pub open spec fn node_of(node: json::JsonView, max_bytes: usize) -> Option<NodeView> {
    let role = text_or(property_of(node, "role"@, max_bytes), "generic"@);
    let id = match node.get("backendDOMNodeId"@) {
        Some(held) => held.as_i64(),
        None => None,
    };
    if role == "RootWebArea"@ {
        None
    } else {
        Some(
            NodeView {
                role,
                name: property_of(node, "name"@, max_bytes),
                value: property_of(node, "value"@, max_bytes),
                backend_node_id: id,
                actionable: actionable_role(role) && id is Some,
            },
        )
    }
}

/// How many bytes a text takes; none where there is none.
pub open spec fn held_bytes(held: Option<Seq<char>>) -> nat {
    match held {
        Some(held) => text::byte_len(held),
        None => 0,
    }
}

/// How much of the room of a snapshot an element takes.
pub open spec fn node_bytes(node: NodeView) -> nat {
    text::byte_len(node.role) + held_bytes(node.name) + held_bytes(node.value) + 64
}

/// A sum, up to the largest size that there is.
pub open spec fn saturated(sum: nat) -> nat {
    if sum > usize::MAX {
        usize::MAX as nat
    } else {
        sum
    }
}

/// What the first nodes come to: the elements, their size, and whether there was
/// no room for one of them.
pub struct Gathered {
    pub nodes: Seq<NodeView>,
    pub bytes: nat,
    pub full: bool,
}

/// What nodes come to: elements are taken in their order until one does not fit.
pub open spec fn gathered(nodes: Seq<json::JsonView>, limits: SnapshotLimits) -> Gathered
    decreases nodes.len(),
{
    if nodes.len() == 0 {
        Gathered { nodes: Seq::empty(), bytes: 0, full: false }
    } else {
        let before = gathered(nodes.drop_last(), limits);
        match node_of(nodes.last(), limits.max_text_bytes) {
            Some(node) => {
                let bytes = saturated(before.bytes + node_bytes(node));
                if before.full {
                    before
                } else if bytes > limits.max_bytes {
                    Gathered { full: true, ..before }
                } else {
                    Gathered { nodes: before.nodes.push(node), bytes, full: false }
                }
            },
            None => before,
        }
    }
}

/// What elements stand for.
pub open spec fn nodes_view(nodes: Seq<BackendNode>) -> Seq<NodeView> {
    Seq::new(nodes.len(), |i: int| nodes[i]@)
}

fn read_node(node: &JsonValue, max_bytes: usize) -> (result: Option<BackendNode>)
    ensures
        match result {
            Some(found) => node_of(node@, max_bytes) == Some(found@),
            None => node_of(node@, max_bytes) is None,
        },
{
    let role = match ax_value(node, "role", max_bytes) {
        Some(role) => role,
        None => "generic".to_owned(),
    };
    if same_text(role.as_str(), "RootWebArea") {
        return None;
    }
    let backend_node_id = match node.get("backendDOMNodeId") {
        Some(held) => held.as_i64(),
        None => None,
    };
    let actionable = is_actionable(role.as_str()) && backend_node_id.is_some();
    Some(
        BackendNode {
            role,
            name: ax_value(node, "name", max_bytes),
            value: ax_value(node, "value", max_bytes),
            backend_node_id,
            actionable,
        },
    )
}

fn size_of_held(held: &Option<String>) -> (bytes: usize)
    ensures
        bytes == held_bytes(text::text_of(*held)),
{
    match held {
        Some(held) => byte_count(held.as_str()),
        None => 0,
    }
}

proof fn lemma_full_stays(nodes: Seq<json::JsonView>, limits: SnapshotLimits, n: int)
    requires
        0 <= n <= nodes.len(),
        gathered(nodes.take(n), limits).full,
    ensures
        gathered(nodes, limits) == gathered(nodes.take(n), limits),
    decreases nodes.len() - n,
{
    if n < nodes.len() {
        assert(nodes.take(n + 1).drop_last() =~= nodes.take(n));
        lemma_full_stays(nodes, limits, n + 1);
    } else {
        assert(nodes.take(n) =~= nodes);
    }
}

/// The nodes of an accessibility tree.
pub open spec fn raw_nodes(tree: json::JsonView) -> Seq<json::JsonView> {
    match tree.get("nodes"@) {
        Some(held) => match held.as_array() {
            Some(nodes) => nodes,
            None => Seq::empty(),
        },
        None => Seq::empty(),
    }
}

/// The elements of the first nodes of a list, and whether there was no room for
/// one of them.
fn gather(nodes: &Vec<JsonValue>, limits: SnapshotLimits) -> (result: (Vec<BackendNode>, bool))
    ensures
        ({
            let first = leading(json::items_view(nodes@), limits.max_nodes as int);
            nodes_view(result.0@) == gathered(first, limits).nodes && result.1 == gathered(
                first,
                limits,
            ).full
        }),
{
    let ghost all = json::items_view(nodes@);
    let ghost first = leading(all, limits.max_nodes as int);
    let mut kept: Vec<BackendNode> = Vec::new();
    let mut bytes: usize = 0;
    let mut i: usize = 0;
    assert(first.take(0) =~= Seq::<json::JsonView>::empty());
    assert(nodes_view(kept@) =~= Seq::<NodeView>::empty());
    while i < nodes.len() && i < limits.max_nodes
        invariant
            i <= first.len(),
            all == json::items_view(nodes@),
            first == leading(all, limits.max_nodes as int),
            nodes_view(kept@) == gathered(first.take(i as int), limits).nodes,
            bytes == gathered(first.take(i as int), limits).bytes,
            !gathered(first.take(i as int), limits).full,
        decreases first.len() - i,
    {
        let ghost before = nodes_view(kept@);
        assert(first.take(i + 1).drop_last() =~= first.take(i as int));
        assert(first.take(i + 1).last() == nodes@[i as int]@);
        if let Some(node) = read_node(&nodes[i], limits.max_text_bytes) {
            let size = bytes.saturating_add(byte_count(node.role.as_str())).saturating_add(
                size_of_held(&node.name),
            ).saturating_add(size_of_held(&node.value)).saturating_add(64);
            assert(size == saturated(bytes as nat + node_bytes(node@)));
            if size > limits.max_bytes {
                proof {
                    lemma_full_stays(first, limits, i + 1);
                }
                return (kept, true);
            }
            bytes = size;
            let ghost held = node@;
            kept.push(node);
            assert(nodes_view(kept@) =~= before.push(held));
        }
        i = i + 1;
    }
    assert(first.take(i as int) =~= first);
    (kept, false)
}

/// The elements of a page, out of its frame tree and its accessibility tree:
/// those of the first nodes, until one does not fit.
pub fn read_snapshot(
    frame_tree: &JsonValue,
    accessibility: &JsonValue,
    limits: SnapshotLimits,
) -> (snapshot: BackendSnapshot)
    ensures
        snapshot.document_id@ == text_or(loader_of(frame_tree@), "unknown-document"@),
        ({
            let all = raw_nodes(accessibility@);
            let found = gathered(leading(all, limits.max_nodes as int), limits);
            nodes_view(snapshot.nodes@) == found.nodes && snapshot.truncated == (all.len()
                > limits.max_nodes || found.full)
        }),
{
    let document_id = own_or(loader_id(frame_tree), "unknown-document");
    let found = match accessibility.get("nodes") {
        Some(held) => held.as_array(),
        None => None,
    };
    match found {
        Some(nodes) => {
            let more = nodes.len() > limits.max_nodes;
            let (kept, full) = gather(nodes, limits);
            BackendSnapshot { document_id, nodes: kept, truncated: more || full }
        },
        None => {
            let nodes: Vec<BackendNode> = Vec::new();
            assert(leading(Seq::<json::JsonView>::empty(), limits.max_nodes as int) =~= Seq::<
                json::JsonView,
            >::empty());
            assert(nodes_view(nodes@) =~= Seq::<NodeView>::empty());
            BackendSnapshot { document_id, nodes, truncated: false }
        },
    }
}

/// The size of the elements that a snapshot holds stays within its bound, and so
/// does their number; every element with an action has an identity.
pub proof fn law_snapshot_is_bounded(nodes: Seq<json::JsonView>, limits: SnapshotLimits)
    ensures
        gathered(nodes, limits).bytes <= limits.max_bytes,
        gathered(nodes, limits).nodes.len() <= nodes.len(),
        forall|i: int|
            0 <= i < gathered(nodes, limits).nodes.len() ==> {
                let node = #[trigger] gathered(nodes, limits).nodes[i];
                node.actionable ==> node.backend_node_id is Some && actionable_role(node.role)
            },
    decreases nodes.len(),
{
    if nodes.len() > 0 {
        law_snapshot_is_bounded(nodes.drop_last(), limits);
    }
}

// ---- Acting on a page ----------------------------------------------------------------

/// The numbers of a list, as they are written, in its order.
pub open spec fn numbers_of(items: Seq<json::JsonView>) -> Seq<Seq<char>>
    decreases items.len(),
{
    if items.len() == 0 {
        Seq::empty()
    } else {
        match items.last() {
            json::JsonView::Number(_, _, written, _) => numbers_of(items.drop_last()).push(written),
            _ => numbers_of(items.drop_last()),
        }
    }
}

/// The corners of an element's box, where its model holds any.
pub open spec fn corners_of(model: json::JsonView) -> Option<Seq<json::JsonView>> {
    match model.get_within("model"@, "content"@) {
        Some(held) => held.as_array(),
        None => None,
    }
}

fn read_numbers(items: &Vec<JsonValue>) -> (numbers: Vec<String>)
    ensures
        text::texts(numbers@) == numbers_of(json::items_view(items@)),
{
    let ghost all = json::items_view(items@);
    let mut numbers: Vec<String> = Vec::new();
    let mut i: usize = 0;
    assert(all.take(0) =~= Seq::<json::JsonView>::empty());
    assert(text::texts(numbers@) =~= Seq::<Seq<char>>::empty());
    while i < items.len()
        invariant
            i <= items@.len(),
            all == json::items_view(items@),
            text::texts(numbers@) == numbers_of(all.take(i as int)),
        decreases items@.len() - i,
    {
        let ghost before = text::texts(numbers@);
        assert(all.take(i + 1).drop_last() =~= all.take(i as int));
        assert(all.take(i + 1).last() == items@[i as int]@);
        match &items[i] {
            JsonValue::Number(held) => {
                let written = held.text.clone();
                numbers.push(written);
                assert(text::texts(numbers@) =~= before.push(written@));
            },
            _ => {},
        }
        i = i + 1;
    }
    assert(all.take(i as int) =~= all);
    numbers
}

/// The coordinates of the corners of an element's box, as they are written: at
/// least the eight of four corners.
pub fn box_coordinates(model: &JsonValue) -> (result: Result<Vec<String>, BrowserError>)
    ensures
        match corners_of(model@) {
            None => result matches Err(error) && error@ == browser_error::not_started_error(
                "element_not_actionable"@,
                "element has no current box model"@,
            ),
            Some(corners) => match result {
                Ok(numbers) => numbers@.len() >= 8 && text::texts(numbers@) == numbers_of(corners),
                Err(error) => numbers_of(corners).len() < 8 && error@
                    == browser_error::not_started_error(
                    "element_not_actionable"@,
                    "element box model is invalid"@,
                ),
            },
        },
{
    let corners = match model.get_within("model", "content") {
        Some(held) => held.as_array(),
        None => None,
    };
    match corners {
        Some(items) => {
            let numbers = read_numbers(items);
            assert(text::texts(numbers@).len() == numbers@.len());
            if numbers.len() < 8 {
                Err(
                    BrowserError::not_started(
                        "element_not_actionable",
                        "element box model is invalid",
                    ),
                )
            } else {
                Ok(numbers)
            }
        },
        None => Err(
            BrowserError::not_started("element_not_actionable", "element has no current box model"),
        ),
    }
}

/// The parameters of a press or a release of the left button at a point.
pub open spec fn mouse_params(pressed: bool, x: json::JsonView, y: json::JsonView) -> json::JsonView {
    json::JsonView::Object(
        seq![
            (
                "type"@,
                json::JsonView::Text(
                    if pressed {
                        "mousePressed"@
                    } else {
                        "mouseReleased"@
                    },
                ),
            ),
            ("x"@, x),
            ("y"@, y),
            ("button"@, json::JsonView::Text("left"@)),
            ("clickCount"@, json::number(1)),
        ],
    )
}

/// The parameters of a press or a release of the left button at a point.
pub fn mouse_event(pressed: bool, x: &JsonValue, y: &JsonValue) -> (params: JsonValue)
    ensures
        params@ == mouse_params(pressed, x@, y@),
{
    let mut fields: Vec<(String, JsonValue)> = Vec::new();
    add_field(
        &mut fields,
        "type",
        text_value(if pressed { "mousePressed" } else { "mouseReleased" }),
    );
    add_field(&mut fields, "x", x.duplicate());
    add_field(&mut fields, "y", y.duplicate());
    add_field(&mut fields, "button", text_value("left"));
    add_field(&mut fields, "clickCount", number_value(1));
    proof {
        json::lemma_object_view(fields);
        assert(json::fields_view(fields@) =~= mouse_params(pressed, x@, y@)->Object_0);
    }
    JsonValue::Object(fields)
}

/// The parameters of a key that goes down or comes up. Only a key that goes down
/// carries the text that it types.
pub open spec fn key_params(
    down: bool,
    key_name: Seq<char>,
    code: Seq<char>,
    typed: Option<Seq<char>>,
) -> json::JsonView {
    json::JsonView::Object(
        if down {
            seq![
                ("type"@, json::JsonView::Text("keyDown"@)),
                ("key"@, json::JsonView::Text(key_name)),
                ("code"@, json::JsonView::Text(code)),
                ("text"@, json::text_or_null(typed)),
            ]
        } else {
            seq![
                ("type"@, json::JsonView::Text("keyUp"@)),
                ("key"@, json::JsonView::Text(key_name)),
                ("code"@, json::JsonView::Text(code)),
            ]
        },
    )
}

/// The parameters of a key that goes down or comes up.
pub fn key_event(down: bool, key_name: &str, code: &str, typed: Option<&str>) -> (params: JsonValue)
    ensures
        params@ == key_params(down, key_name@, code@, text::str_of(typed)),
{
    let mut fields: Vec<(String, JsonValue)> = Vec::new();
    add_field(&mut fields, "type", text_value(if down { "keyDown" } else { "keyUp" }));
    add_field(&mut fields, "key", text_value(key_name));
    add_field(&mut fields, "code", text_value(code));
    if down {
        add_field(&mut fields, "text", optional_text(typed));
    }
    proof {
        json::lemma_object_view(fields);
        assert(json::fields_view(fields@) =~= key_params(
            down,
            key_name@,
            code@,
            text::str_of(typed),
        )->Object_0);
    }
    JsonValue::Object(fields)
}

/// The failure of a shutdown whose process tree could not be ended.
pub fn shutdown_failed(error: &str) -> (result: BrowserError)
    ensures
        result@ == browser_error::uncertain_error(
            "browser_shutdown_failed"@,
            "could not terminate owned Browser process tree: "@ + error@,
            "browsers"@,
        ),
{
    BrowserError::uncertain(
        "browser_shutdown_failed",
        text::joined("could not terminate owned Browser process tree: ", error).as_str(),
        "browsers",
    )
}

// ---- Laws ----------------------------------------------------------------------------

/// The text that a node of the accessibility tree holds under a property: the text
/// of that very property, whole where it fits into the bound and its beginning
/// where it does not; nothing where the node has no such property, or one without
/// a text.
pub proof fn law_property_is_the_text_under_its_key(
    node: json::JsonView,
    key: Seq<char>,
    max_bytes: usize,
)
    ensures
        node.get(key) is None ==> property_of(node, key, max_bytes) is None,
        node.get(key) matches Some(held) ==> (match held.get("value"@) {
            Some(json::JsonView::Text(written)) => {
                &&& text::byte_len(written) <= max_bytes ==> property_of(node, key, max_bytes)
                    == Some(written)
                &&& property_of(node, key, max_bytes) matches Some(shown) && shown.is_prefix_of(
                    written,
                ) && text::byte_len(shown) <= max_bytes
            },
            _ => property_of(node, key, max_bytes) is None,
        }),
{
    if let Some(held) = node.get(key) {
        if let Some(json::JsonView::Text(written)) = held.get("value"@) {
            text::law_clipping_keeps_the_longest_beginning(written, max_bytes as nat);
        }
    }
}

/// The element of a snapshot that stands for a node holds the node's own role,
/// name and value, each from the property of that name whatever the others are,
/// and the identifier under which the browser knows the node. The root of the page
/// is no element; a node without a role is a generic one.
pub proof fn law_element_holds_the_properties_of_its_node(
    node: json::JsonView,
    role: Seq<char>,
    max_bytes: usize,
)
    requires
        node.get("role"@) matches Some(held) ==> (held.get("value"@) matches Some(
            json::JsonView::Text(written),
        ) ==> text::byte_len(written) <= max_bytes && role == written),
        !(node.get("role"@) matches Some(held) && held.get("value"@) matches Some(
            json::JsonView::Text(_),
        )) ==> role == "generic"@,
    ensures
        node_of(node, max_bytes) is None <==> role == "RootWebArea"@,
        node_of(node, max_bytes) matches Some(element) ==> {
            &&& element.role == role
            &&& node.get("name"@) is None ==> element.name is None
            &&& node.get("name"@) matches Some(held) ==> (match held.get("value"@) {
                Some(json::JsonView::Text(written)) => {
                    &&& text::byte_len(written) <= max_bytes ==> element.name == Some(written)
                    &&& element.name matches Some(shown) && shown.is_prefix_of(written)
                },
                _ => element.name is None,
            })
            &&& node.get("value"@) is None ==> element.value is None
            &&& node.get("value"@) matches Some(held) ==> (match held.get("value"@) {
                Some(json::JsonView::Text(written)) => {
                    &&& text::byte_len(written) <= max_bytes ==> element.value == Some(written)
                    &&& element.value matches Some(shown) && shown.is_prefix_of(written)
                },
                _ => element.value is None,
            })
            &&& element.backend_node_id == (match node.get("backendDOMNodeId"@) {
                Some(json::JsonView::Number(_, signed, _, _)) => signed,
                _ => None,
            })
            &&& element.backend_node_id is None ==> !element.actionable
        },
{
    law_property_is_the_text_under_its_key(node, "role"@, max_bytes);
    law_property_is_the_text_under_its_key(node, "name"@, max_bytes);
    law_property_is_the_text_under_its_key(node, "value"@, max_bytes);
}

/// Two nodes whose values differ, and fit, give elements that differ in value,
/// whatever their names are; and two whose names differ give elements that differ
/// in name, whatever their values are.
pub proof fn law_elements_tell_values_apart(
    a: json::JsonView,
    b: json::JsonView,
    key: Seq<char>,
    one: Seq<char>,
    two: Seq<char>,
    max_bytes: usize,
)
    requires
        key == "value"@ || key == "name"@,
        a.get(key) matches Some(held) && held.get("value"@) == Some(json::JsonView::Text(one)),
        b.get(key) matches Some(held) && held.get("value"@) == Some(json::JsonView::Text(two)),
        text::byte_len(one) <= max_bytes,
        text::byte_len(two) <= max_bytes,
        one != two,
    ensures
        node_of(a, max_bytes) matches Some(x) ==> (node_of(b, max_bytes) matches Some(y) ==> {
            &&& key == "value"@ ==> x.value != y.value
            &&& key == "name"@ ==> x.name != y.name
        }),
{
    law_property_is_the_text_under_its_key(a, "value"@, max_bytes);
    law_property_is_the_text_under_its_key(b, "value"@, max_bytes);
    law_property_is_the_text_under_its_key(a, "name"@, max_bytes);
    law_property_is_the_text_under_its_key(b, "name"@, max_bytes);
}

/// What can be acted on: the controls of a page, where the browser knows the node,
/// and nothing else.
pub proof fn law_controls_can_be_acted_on(role: Seq<char>)
    ensures
        actionable_role(role) <==> seq![
            "button"@,
            "link"@,
            "textbox"@,
            "searchbox"@,
            "combobox"@,
            "checkbox"@,
            "radio"@,
            "switch"@,
            "menuitem"@,
            "tab"@,
            "option"@,
        ].contains(role),
{
    let roles = seq![
        "button"@,
        "link"@,
        "textbox"@,
        "searchbox"@,
        "combobox"@,
        "checkbox"@,
        "radio"@,
        "switch"@,
        "menuitem"@,
        "tab"@,
        "option"@,
    ];
    if actionable_role(role) {
        assert(roles[0] == "button"@);
        assert(roles[1] == "link"@);
        assert(roles[2] == "textbox"@);
        assert(roles[3] == "searchbox"@);
        assert(roles[4] == "combobox"@);
        assert(roles[5] == "checkbox"@);
        assert(roles[6] == "radio"@);
        assert(roles[7] == "switch"@);
        assert(roles[8] == "menuitem"@);
        assert(roles[9] == "tab"@);
        assert(roles[10] == "option"@);
    }
}

/// A snapshot is gathered node by node, in the order of the tree: a node that
/// still fits becomes the next element, the first that does not ends the snapshot,
/// and the root of the page takes no room. An element takes the bytes of its texts
/// and a fixed amount more.
pub proof fn law_snapshot_grows_node_by_node(
    nodes: Seq<json::JsonView>,
    node: json::JsonView,
    limits: SnapshotLimits,
)
    ensures
        gathered(Seq::empty(), limits).nodes.len() == 0,
        !gathered(Seq::empty(), limits).full,
        gathered(nodes, limits).full ==> gathered(nodes.push(node), limits) == gathered(
            nodes,
            limits,
        ),
        node_of(node, limits.max_text_bytes) is None ==> gathered(nodes.push(node), limits)
            == gathered(nodes, limits),
        !gathered(nodes, limits).full ==> (node_of(node, limits.max_text_bytes) matches Some(
            element,
        ) ==> {
            let room = text::byte_len(element.role) + (match element.name {
                Some(name) => text::byte_len(name),
                None => 0,
            }) + (match element.value {
                Some(value) => text::byte_len(value),
                None => 0,
            }) + 64;
            let after = gathered(nodes.push(node), limits);
            &&& gathered(nodes, limits).bytes + room <= limits.max_bytes ==> after.nodes
                == gathered(nodes, limits).nodes.push(element) && after.bytes == gathered(
                nodes,
                limits,
            ).bytes + room && !after.full
            &&& gathered(nodes, limits).bytes + room > limits.max_bytes && limits.max_bytes
                < usize::MAX ==> after.full && after.nodes == gathered(nodes, limits).nodes
        }),
{
    assert(nodes.push(node).drop_last() =~= nodes);
    law_snapshot_is_bounded(nodes, limits);
}

/// A bounded beginning holds no more than it may, holds all where all fits, and
/// keeps the order.
pub proof fn law_leading_items_are_the_first<T>(all: Seq<T>, count: int)
    requires
        count >= 0,
    ensures
        all.len() <= count ==> leading(all, count) == all,
        all.len() > count ==> leading(all, count).len() == count,
        leading(all, count).is_prefix_of(all),
{
    assert(all.take(all.len() as int) =~= all);
}

/// A page is what the browser lists as one: with its own identifier, title and
/// address, and the address as the name of its document. A worker, a frame or an
/// entry without an identifier is no page.
pub proof fn law_page_is_what_the_browser_lists(entry: json::JsonView)
    ensures
        page_of(entry) is Some <==> entry.get("type"@) == Some(json::JsonView::Text("page"@)) && (
        entry.get("id"@) matches Some(held) && held is Text),
        page_of(entry) matches Some(page) ==> {
            &&& entry.get("id"@) == Some(json::JsonView::Text(page.target_id))
            &&& entry.get("title"@) matches Some(json::JsonView::Text(title)) ==> page.title
                == title
            &&& entry.get("url"@) matches Some(json::JsonView::Text(url)) ==> page.url == url
                && page.document_id == url
            &&& entry.get("title"@) is None ==> page.title.len() == 0
            &&& entry.get("url"@) is None ==> page.url.len() == 0 && page.document_id
                == "about:blank"@
        },
{
}

/// The pages of a list come in the order of the list: the pages of two lists
/// behind each other are the pages of the first and then those of the second, and
/// one entry gives one page or none.
pub proof fn law_pages_keep_the_order_of_the_list(
    first: Seq<json::JsonView>,
    second: Seq<json::JsonView>,
)
    ensures
        pages_of(first + second) == pages_of(first) + pages_of(second),
        forall|entry: json::JsonView| #[trigger]
            pages_of(seq![entry]) == (match page_of(entry) {
                Some(page) => seq![page],
                None => Seq::empty(),
            }),
    decreases second.len(),
{
    assert forall|entry: json::JsonView| #[trigger] pages_of(seq![entry]) == (match page_of(entry) {
        Some(page) => seq![page],
        None => Seq::empty(),
    }) by {
        assert(seq![entry].drop_last() =~= Seq::<json::JsonView>::empty());
        assert(seq![entry].last() == entry);
        reveal_with_fuel(pages_of, 2);
        if let Some(page) = page_of(entry) {
            assert(pages_of(seq![entry]) =~= seq![page]);
        }
    }
    if second.len() == 0 {
        assert(first + second =~= first);
        assert(pages_of(first) + pages_of(second) =~= pages_of(first));
    } else {
        law_pages_keep_the_order_of_the_list(first, second.drop_last());
        assert((first + second).drop_last() =~= first + second.drop_last());
        assert((first + second).last() == second.last());
        assert(pages_of(first + second) =~= pages_of(first) + pages_of(second));
    }
}

/// A page is found by its identifier, not by its place: what is before it under
/// other identifiers changes nothing, and its address is the one it is listed
/// with. An identifier that is not listed has no address.
pub proof fn law_page_is_found_by_its_identifier(
    before: Seq<json::JsonView>,
    entry: json::JsonView,
    after: Seq<json::JsonView>,
    target_id: Seq<char>,
)
    requires
        forall|i: int|
            0 <= i < before.len() ==> (#[trigger] before[i]).text_field("id"@) != Some(target_id),
    ensures
        entry.get("id"@) == Some(json::JsonView::Text(target_id)) ==> page_address(
            before.push(entry) + after,
            target_id,
        ) == entry.text_field("webSocketDebuggerUrl"@),
        page_address(before, target_id) is None,
    decreases before.len(),
{
    let whole = before.push(entry) + after;
    if before.len() > 0 {
        assert(before[0].text_field("id"@) != Some(target_id));
        let rest = before.drop_first();
        assert forall|i: int| 0 <= i < rest.len() implies (#[trigger] rest[i]).text_field("id"@)
            != Some(target_id) by {
            assert(rest[i] == before[i + 1]);
        }
        law_page_is_found_by_its_identifier(rest, entry, after, target_id);
        assert(whole.drop_first() =~= rest.push(entry) + after);
        assert(whole[0] == before[0]);
    } else {
        assert(whole[0] == entry);
    }
}

/// What a browser announces in its file is what is read: the port of the first
/// line and the path of the second, whatever stands behind them.
pub proof fn law_announced_endpoint_is_read(port: u16, path: Seq<char>, rest: Seq<char>)
    requires
        port > 0,
        text::begins_with(path, "/devtools/browser/"@),
        !path.contains('\n'),
        !path.contains('\r'),
    ensures
        announced(text::decimal(port as nat).push('\n') + path) == Some((port, path)),
        announced(text::decimal(port as nat).push('\n') + (path.push('\n') + rest)) == Some(
            (port, path),
        ),
{
    let digits = text::decimal(port as nat);
    reveal_strlit("/devtools/browser/");
    text::law_written_number_is_read_back(port as nat);
    text::lemma_decimal_is_digits(port as nat);
    assert forall|i: int| 0 <= i < digits.len() implies digits[i] != '\n' && digits[i] != '\r' by {
        assert(text::is_digit(digits[i]));
    }
    assert(!digits.contains('\n'));
    assert(path.len() > 0 && path.last() != '\r') by {
        assert(path.contains(path.last()));
    }
    text::law_lines_go_one_by_one(digits, path);
    text::law_lines_go_one_by_one(digits, path.push('\n') + rest);
    text::law_lines_go_one_by_one(path, rest);
    let short = text::lines_of(digits.push('\n') + path);
    assert(short[0] == digits && short[1] == path);
    let long = text::lines_of(digits.push('\n') + (path.push('\n') + rest));
    assert(long[0] == digits && long[1] == path);
}

/// Nothing is announced by a file that names port zero, no port at all, or a path
/// that is not the browser's own.
pub proof fn law_unsound_announcement_is_refused(first: Seq<char>, second: Seq<char>)
    requires
        !first.contains('\n'),
        !second.contains('\n'),
        first.len() > 0 && first.last() != '\r',
        second.len() > 0,
    ensures
        announced(first) is None,
        text::u16_of(first) is None || text::u16_of(first) == Some(0u16) ==> announced(
            first.push('\n') + second,
        ) is None,
        !text::begins_with(second, "/devtools/browser/"@) ==> announced(
            first.push('\n') + second,
        ) is None,
{
    text::law_lines_go_one_by_one(first, second);
    text::law_lines_go_one_by_one(second, Seq::empty());
}

/// Only this machine is talked to: a browser under its number alone, a page under
/// its number or its name.
pub proof fn law_only_this_machine_is_talked_to(
    parts: (Seq<char>, Option<Seq<char>>, Option<u16>),
    allow_name: bool,
)
    ensures
        parts.1 is None ==> !is_loopback(parts, allow_name),
        parts.1 matches Some(host) ==> (is_loopback(parts, allow_name) <==> host == "127.0.0.1"@
            || (allow_name && host == "localhost"@)),
{
}

/// The addresses that are asked name this machine and the port that was announced:
/// two ports are asked under two addresses.
pub proof fn law_addresses_name_their_port(one: u16, two: u16, path: Seq<char>)
    ensures
        browser_address(one, path) == "ws://127.0.0.1:"@ + text::decimal(one as nat) + path,
        text::begins_with(list_address(Some(one)), "http://127.0.0.1:"@),
        text::finishes_with(list_address(Some(one)), "/json/list"@),
        one != two ==> list_address(Some(one)) != list_address(Some(two)),
        list_address(None) == list_address(Some(0u16)),
{
    let front = "http://127.0.0.1:"@;
    let back = "/json/list"@;
    text::law_prefix_and_suffix(Seq::empty(), front, text::decimal(one as nat) + back);
    text::law_prefix_and_suffix(Seq::empty(), back, front + text::decimal(one as nat));
    assert(list_address(Some(one)) =~= front + (text::decimal(one as nat) + back));
    if one != two && list_address(Some(one)) == list_address(Some(two)) {
        let a = text::decimal(one as nat);
        let b = text::decimal(two as nat);
        let whole = list_address(Some(one));
        assert(whole.len() == front.len() + a.len() + back.len());
        assert(whole.len() == front.len() + b.len() + back.len());
        assert(a =~= whole.subrange(front.len() as int, (front.len() + a.len()) as int));
        assert(b =~= whole.subrange(front.len() as int, (front.len() + b.len()) as int));
        text::law_numbers_are_written_apart(one as nat, two as nat);
    }
}

/// The numbers of a list come as they are written and in its order; what is no
/// number is passed over.
pub proof fn law_numbers_keep_their_order(first: Seq<json::JsonView>, second: Seq<json::JsonView>)
    ensures
        numbers_of(first + second) == numbers_of(first) + numbers_of(second),
        forall|item: json::JsonView| #[trigger]
            numbers_of(seq![item]) == (match item {
                json::JsonView::Number(_, _, written, _) => seq![written],
                _ => Seq::empty(),
            }),
    decreases second.len(),
{
    assert forall|item: json::JsonView| #[trigger] numbers_of(seq![item]) == (match item {
        json::JsonView::Number(_, _, written, _) => seq![written],
        _ => Seq::empty(),
    }) by {
        assert(seq![item].drop_last() =~= Seq::<json::JsonView>::empty());
        assert(seq![item].last() == item);
        reveal_with_fuel(numbers_of, 2);
        if let json::JsonView::Number(_, _, written, _) = item {
            assert(numbers_of(seq![item]) =~= seq![written]);
        }
    }
    if second.len() == 0 {
        assert(first + second =~= first);
        assert(numbers_of(first) + numbers_of(second) =~= numbers_of(first));
    } else {
        law_numbers_keep_their_order(first, second.drop_last());
        assert((first + second).drop_last() =~= first + second.drop_last());
        assert((first + second).last() == second.last());
        assert(numbers_of(first + second) =~= numbers_of(first) + numbers_of(second));
    }
}

/// The name of the document that a page shows is the one of the page's own frame.
pub proof fn law_document_is_named_by_the_frame(tree: json::JsonView, loader: Seq<char>)
    requires
        tree.get("frameTree"@) matches Some(top) && (top.get("frame"@) matches Some(frame)
            && frame.get("loaderId"@) == Some(json::JsonView::Text(loader))),
    ensures
        loader_of(tree) == Some(loader),
{
}

/// A press and a release of the mouse are told to the browser as what they are, at
/// the place they are meant for, with the left button and as one click.
pub proof fn law_mouse_acts_where_it_is_told(pressed: bool, x: json::JsonView, y: json::JsonView)
    ensures
        mouse_params(pressed, x, y) is Object,
        (mouse_params(pressed, x, y)->Object_0).len() == 5,
        mouse_params(pressed, x, y).get("type"@) == Some(json::JsonView::Text(
            if pressed {
                "mousePressed"@
            } else {
                "mouseReleased"@
            },
        )),
        mouse_params(pressed, x, y).get("x"@) == Some(x),
        mouse_params(pressed, x, y).get("y"@) == Some(y),
        mouse_params(pressed, x, y).get("button"@) == Some(json::JsonView::Text("left"@)),
        mouse_params(pressed, x, y).get("clickCount"@) == Some(json::number(1)),
{
    reveal_strlit("type");
    reveal_strlit("x");
    reveal_strlit("y");
    reveal_strlit("button");
    reveal_strlit("clickCount");
    assert("type"@.len() == 4);
    assert("x"@.len() == 1);
    assert("y"@.len() == 1);
    assert("button"@.len() == 6);
    assert("clickCount"@.len() == 10);
    assert("x"@[0] != "y"@[0]);
    let fields = mouse_params(pressed, x, y)->Object_0;
    json::law_field_is_found(fields, 0);
    json::law_field_is_found(fields, 1);
    json::law_field_is_found(fields, 2);
    json::law_field_is_found(fields, 3);
    json::law_field_is_found(fields, 4);
}

/// A key is told by its name and its place on the keyboard, going down with what
/// it types and coming up without.
pub proof fn law_key_is_told_down_and_up(
    key_name: Seq<char>,
    code: Seq<char>,
    typed: Option<Seq<char>>,
)
    ensures
        key_params(true, key_name, code, typed).get("type"@) == Some(
            json::JsonView::Text("keyDown"@),
        ),
        key_params(true, key_name, code, typed).get("key"@) == Some(json::JsonView::Text(key_name)),
        key_params(true, key_name, code, typed).get("code"@) == Some(json::JsonView::Text(code)),
        key_params(true, key_name, code, typed).get("text"@) == Some(
            match typed {
                Some(held) => json::JsonView::Text(held),
                None => json::JsonView::Null,
            },
        ),
        key_params(false, key_name, code, typed).get("type"@) == Some(
            json::JsonView::Text("keyUp"@),
        ),
        key_params(false, key_name, code, typed).get("key"@) == Some(
            json::JsonView::Text(key_name),
        ),
        key_params(false, key_name, code, typed).get("code"@) == Some(json::JsonView::Text(code)),
        key_params(false, key_name, code, typed).get("text"@) is None,
{
    reveal_strlit("type");
    reveal_strlit("key");
    reveal_strlit("code");
    reveal_strlit("text");
    assert("type"@.len() == 4);
    assert("key"@.len() == 3);
    assert("code"@.len() == 4);
    assert("text"@.len() == 4);
    assert("type"@[0] != "code"@[0]);
    assert("type"@[1] != "text"@[1]);
    assert("code"@[0] != "text"@[0]);
    let down = key_params(true, key_name, code, typed)->Object_0;
    json::law_field_is_found(down, 0);
    json::law_field_is_found(down, 1);
    json::law_field_is_found(down, 2);
    json::law_field_is_found(down, 3);
    let up = key_params(false, key_name, code, typed)->Object_0;
    json::law_field_is_found(up, 0);
    json::law_field_is_found(up, 1);
    json::law_field_is_found(up, 2);
    json::law_absent_field_is_not_found(up, "text"@);
}

/// The element that a snapshot holds of a node, wherever the node stands in a tree
/// that fits, holds the text of the node's own value, whole where that fits, whatever
/// its name is, and nothing where the node has none; and likewise its name.
pub proof fn law_snapshot_holds_the_value_of_each_node(
    frame_tree: JsonValue,
    accessibility: JsonValue,
    limits: SnapshotLimits,
    snapshot: BackendSnapshot,
    before: Seq<json::JsonView>,
    node: json::JsonView,
)
    requires
        call_ensures(read_snapshot, (&frame_tree, &accessibility, limits), snapshot),
        accessibility@.get("nodes"@) == Some(json::JsonView::Array(before.push(node))),
        !snapshot.truncated,
        node_of(node, limits.max_text_bytes) is Some,
    ensures
        snapshot.nodes@.len() == gathered(before, limits).nodes.len() + 1,
        ({
            let element = snapshot.nodes@.last();
            let max_bytes = limits.max_text_bytes;
            &&& node.get("value"@) is None ==> element.value is None
            &&& node.get("value"@) matches Some(held) ==> (match held.get("value"@) {
                Some(json::JsonView::Text(written)) => (text::byte_len(written) <= max_bytes
                    ==> text::text_of(element.value) == Some(written)) && (
                element.value matches Some(shown) && shown@.is_prefix_of(written)),
                _ => element.value is None,
            })
            &&& node.get("name"@) is None ==> element.name is None
            &&& node.get("name"@) matches Some(held) ==> (match held.get("value"@) {
                Some(json::JsonView::Text(written)) => (text::byte_len(written) <= max_bytes
                    ==> text::text_of(element.name) == Some(written)) && (
                element.name matches Some(shown) && shown@.is_prefix_of(written)),
                _ => element.name is None,
            })
        }),
{
    let all = before.push(node);
    law_leading_items_are_the_first(all, limits.max_nodes as int);
    assert(all.drop_last() =~= before);
    let shown = nodes_view(snapshot.nodes@);
    assert(shown == gathered(all, limits).nodes);
    assert(shown.len() == snapshot.nodes@.len());
    assert(shown.last() == snapshot.nodes@.last()@);
    law_property_is_the_text_under_its_key(node, "role"@, limits.max_text_bytes);
    law_property_is_the_text_under_its_key(node, "name"@, limits.max_text_bytes);
    law_property_is_the_text_under_its_key(node, "value"@, limits.max_text_bytes);
}

/// A snapshot is of the document that the frame shows, and says that it is not whole
/// exactly where the tree has more nodes than are looked at, or one did not fit.
pub proof fn law_snapshot_says_whether_it_is_whole(
    frame_tree: JsonValue,
    accessibility: JsonValue,
    limits: SnapshotLimits,
    snapshot: BackendSnapshot,
    all: Seq<json::JsonView>,
)
    requires
        call_ensures(read_snapshot, (&frame_tree, &accessibility, limits), snapshot),
        accessibility@.get("nodes"@) == Some(json::JsonView::Array(all)),
    ensures
        snapshot.nodes@.len() <= limits.max_nodes,
        all.len() > limits.max_nodes ==> snapshot.truncated,
        all.len() <= limits.max_nodes ==> (snapshot.truncated <==> gathered(all, limits).full),
        all.len() <= limits.max_nodes ==> nodes_view(snapshot.nodes@) == gathered(all, limits).nodes,
        loader_of(frame_tree@) matches Some(loader) ==> snapshot.document_id@ == loader,
        loader_of(frame_tree@) is None ==> snapshot.document_id@ == "unknown-document"@,
{
    law_leading_items_are_the_first(all, limits.max_nodes as int);
    let first = leading(all, limits.max_nodes as int);
    law_snapshot_is_bounded(first, limits);
    assert(nodes_view(snapshot.nodes@).len() == snapshot.nodes@.len());
}

/// While a browser starts, what it has announced is taken; one that has ended, or
/// has taken too long, without announcing anything failed; and otherwise it is waited
/// for.
pub proof fn law_starting_browser_is_waited_for(
    contents: Option<&str>,
    ended: bool,
    timed_out: bool,
    poll: LaunchPoll,
)
    requires
        call_ensures(launch_poll, (contents, ended, timed_out), poll),
    ensures
        poll is Ready <==> (contents matches Some(held) && announced(held@) is Some),
        poll matches LaunchPoll::Ready { port, path } ==> (contents matches Some(held) && announced(
            held@,
        ) == Some((port, path@))),
        poll is Wait <==> !(contents matches Some(held) && announced(held@) is Some) && !ended
            && !timed_out,
        poll matches LaunchPoll::Failed(error) ==> (ended ==> error@.kind == "launch_failed"@) && (
        !ended ==> error@.kind == "launch_timeout"@) && error@.execution_state
            == browser_error::ExecutionState::NotStarted,
{
}

/// A page that was created is the one that the browser names; without that it is
/// not known whether there is one.
pub proof fn law_created_page_is_named(reply: JsonValue, result: Result<String, BrowserError>)
    requires
        call_ensures(created_page, (&reply,), result),
    ensures
        reply@.get("targetId"@) matches Some(json::JsonView::Text(id)) ==> (result matches Ok(named)
            && named@ == id),
        !(reply@.get("targetId"@) matches Some(held) && held is Text) ==> (result matches Err(error)
            && error@.execution_state == browser_error::ExecutionState::OutcomeUnknown
            && error@.recovery_action == Some("pages"@) && error@.kind
            == "create_page_result_invalid"@),
{
}

/// A picture of a page is the data that the browser sends; without that there is
/// none, and nothing has changed.
pub proof fn law_picture_is_what_was_sent(reply: JsonValue, result: Result<String, BrowserError>)
    requires
        call_ensures(screenshot_data, (&reply,), result),
    ensures
        reply@.get("data"@) matches Some(json::JsonView::Text(data)) ==> (result matches Ok(held)
            && held@ == data),
        !(reply@.get("data"@) matches Some(held) && held is Text) ==> (result matches Err(error)
            && error@.execution_state == browser_error::ExecutionState::Observed && error@.kind
            == "invalid_image"@),
{
}

/// The corners of an element are the numbers of its own box, at least the eight that
/// make four corners; without them the element cannot be acted on, and nothing has
/// begun.
pub proof fn law_corners_are_those_of_the_box(
    model: JsonValue,
    result: Result<Vec<String>, BrowserError>,
)
    requires
        call_ensures(box_coordinates, (&model,), result),
    ensures
        result matches Ok(numbers) ==> numbers@.len() >= 8 && (model@.get("model"@) matches Some(
            held,
        ) && held.get("content"@) matches Some(json::JsonView::Array(items)) && text::texts(
            numbers@,
        ) == numbers_of(items)),
        model@.get("model"@) matches Some(held) ==> (held.get("content"@) matches Some(
            json::JsonView::Array(items),
        ) ==> (result is Ok <==> numbers_of(items).len() >= 8)),
        result matches Err(error) ==> error@.execution_state
            == browser_error::ExecutionState::NotStarted && error@.kind == "element_not_actionable"@,
{
}

/// A page gets the name of its document from the tree of its frames where there is
/// one, and keeps everything else.
pub proof fn law_page_is_renamed_by_its_frames(
    page: BackendPage,
    tree: Option<&JsonValue>,
    result: BackendPage,
)
    requires
        call_ensures(with_loader, (page, tree), result),
    ensures
        result.target_id@ == page.target_id@ && result.title@ == page.title@ && result.url@
            == page.url@,
        tree is None ==> result.document_id@ == page.document_id@,
        tree matches Some(held) ==> (match loader_of(held@) {
            Some(loader) => result.document_id@ == loader,
            None => result.document_id@ == page.document_id@,
        }),
{
}

/// The pages that are listed are the first of those that the browser lists, and at
/// least one where it lists any.
pub proof fn law_listed_pages_are_the_first(
    list: Vec<JsonValue>,
    max_pages: usize,
    pages: Vec<BackendPage>,
)
    requires
        call_ensures(page_list, (&list, max_pages), pages),
    ensures
        pages_view(pages@).is_prefix_of(pages_of(json::items_view(list@))),
        max_pages > 0 ==> pages@.len() <= max_pages,
        max_pages > 0 && pages_of(json::items_view(list@)).len() >= max_pages ==> pages@.len()
            == max_pages,
        pages_of(json::items_view(list@)).len() > 0 ==> pages@.len() > 0,
        pages_of(json::items_view(list@)).len() <= max_pages ==> pages_view(pages@) == pages_of(
            json::items_view(list@),
        ),
{
    let all = pages_of(json::items_view(list@));
    let limit = if max_pages == 0 {
        1int
    } else {
        max_pages as int
    };
    law_leading_items_are_the_first(all, limit);
    assert(pages_view(pages@).len() == pages@.len());
}

/// An endpoint is accepted exactly where it can be read and is on this machine, and
/// is then the one that was read; a page's may also be told by the machine's name.
pub proof fn law_endpoints_are_on_this_machine(
    parts: Option<UrlParts>,
    browser: Result<UrlParts, BrowserError>,
    page: Result<UrlParts, BrowserError>,
)
    requires
        call_ensures(accept_browser_endpoint, (parts,), browser),
        call_ensures(accept_page_endpoint, (parts,), page),
    ensures
        browser matches Ok(endpoint) ==> parts == Some(endpoint) && (endpoint.host matches Some(host)
            && host@ == "127.0.0.1"@),
        page matches Ok(endpoint) ==> parts == Some(endpoint) && (endpoint.host matches Some(host)
            && (host@ == "127.0.0.1"@ || host@ == "localhost"@)),
        parts matches Some(held) ==> (held.host matches Some(host) ==> host@ == "127.0.0.1"@
            ==> browser is Ok && page is Ok),
        parts matches Some(held) ==> (held.host matches Some(host) ==> host@ == "localhost"@
            ==> page is Ok),
        browser matches Err(error) ==> error@.execution_state
            == browser_error::ExecutionState::NotStarted && error@.kind == "cdp_endpoint_invalid"@,
        page matches Err(error) ==> error@.execution_state
            == browser_error::ExecutionState::Observed && error@.kind == "cdp_endpoint_invalid"@,
{
}

/// A browser that could not be shut down leaves open what is left of it, and says
/// why.
pub proof fn law_failed_shutdown_says_why(error: &str, result: BrowserError)
    requires
        call_ensures(shutdown_failed, (error,), result),
    ensures
        result@.kind == "browser_shutdown_failed"@,
        result@.execution_state == browser_error::ExecutionState::OutcomeUnknown,
        result@.recovery_action == Some("browsers"@),
        text::finishes_with(result@.message, error@),
{
    text::law_prefix_and_suffix(
        error@,
        error@,
        "could not terminate owned Browser process tree: "@,
    );
}

/// Why a browser did not start, or an endpoint was not taken: that it ended or took
/// too long, that the endpoint cannot be read or is not on this machine, or that the
/// page is gone.
pub proof fn law_failed_start_says_why()
    ensures
        launch_ended().message == "Browser exited before loopback CDP became ready"@,
        launch_timed_out().message == "Browser did not expose loopback CDP before launch timeout"@,
        browser_endpoint_error(true).message == "Browser CDP endpoint was not loopback"@,
        browser_endpoint_error(false).message
            == "Browser returned an invalid loopback CDP endpoint"@,
        page_endpoint_error(true).message == "page CDP endpoint is not loopback"@,
        page_endpoint_error(false).message == "page CDP endpoint is invalid"@,
        page_endpoint_error(true).recovery_action is None,
        page_endpoint_error(false).recovery_action is None,
        stale_page().kind == "stale_page"@,
        stale_page().message == "page target is no longer available"@,
        stale_page().execution_state == browser_error::ExecutionState::NotStarted,
{
}

} // verus!
