//! Talking to a Chromium page through its debug port: which commands are sent, and
//! what is made of the replies. Any Electron app that was launched with a remote
//! debugging port can be reached this way.

use crate::ax_macos::{node_views, Node, NodeView};
use crate::capture::{
    half_even, in_range, magnitude, magnitude_of, signed, unsigned, ScreenRect, LIMIT,
};
use crate::double::{double_bits, double_of};
use crate::json::{
    a_member_is_the_first_with_its_key, a_missing_member_is_none, a_place_is_where_the_key_is,
    field, list_view, list_view_pointwise, members_view, members_view_pointwise, place_of, text,
    Json, JsonNumber, JsonView,
};
use crate::output::CaptureResult;
use crate::text::{
    begins, copy_of, decimal, decimal_is_digits, decimal_is_nonempty, decimal_reads_back,
    decimal_text, digit, digit_value, index_from, index_from_is_first, is_number, occurs, occurs_at,
    opt_view, read_decimal, replace_all, replaced, same,
};
use vstd::prelude::*;

verus! {

// ---------------------------------------------------------------------------
// Ports and pages
// ---------------------------------------------------------------------------

/// The first port that is probed.
pub const FIRST_DEBUG_PORT: u16 = 9220;

/// The last port that is probed.
pub const LAST_DEBUG_PORT: u16 = 9230;

/// `p` is the smallest port among those that answered.
pub open spec fn lowest(answers: Seq<Option<u16>>, p: u16) -> bool {
    &&& answers.contains(Some(p))
    &&& forall|i: int| 0 <= i < answers.len() ==> (#[trigger] answers[i] matches Some(q) ==> p <= q)
}

/// The debug port to use, given which probes were answered and on which port: the
/// lowest, whatever the order of the answers.
pub fn discover_port(answers: &Vec<Option<u16>>) -> (r: Option<u16>)
    ensures
        match r {
            Some(p) => lowest(answers@, p),
            None => forall|i: int| 0 <= i < answers@.len() ==> (#[trigger] answers@[i]) is None,
        },
{
    let mut best: Option<u16> = None;
    for i in 0..answers.len()
        invariant
            match best {
                Some(p) => {
                    &&& exists|k: int| 0 <= k < i && answers@[k] == Some(p)
                    &&& forall|k: int|
                        0 <= k < i ==> (#[trigger] answers@[k] matches Some(q) ==> p <= q)
                },
                None => forall|k: int| 0 <= k < i ==> (#[trigger] answers@[k]) is None,
            },
    {
        if let Some(q) = answers[i] {
            match best {
                Some(p) if p <= q => {},
                _ => {
                    best = Some(q);
                    assert(answers@[i as int] == Some(q));
                },
            }
        }
    }
    best
}

/// Two runs in which the same ports answered use the same port.
pub proof fn lowest_is_unique(a: Seq<Option<u16>>, b: Seq<Option<u16>>, p: u16, q: u16)
    requires
        lowest(a, p),
        lowest(b, q),
        forall|x: u16| a.contains(Some(x)) <==> b.contains(Some(x)),
    ensures
        p == q,
{
    assert(b.contains(Some(p)));
    assert(a.contains(Some(q)));
    let i = choose|i: int| 0 <= i < b.len() && b[i] == Some(p);
    let j = choose|j: int| 0 <= j < a.len() && a[j] == Some(q);
    assert(b[i] matches Some(x) ==> q <= x);
    assert(a[j] matches Some(x) ==> p <= x);
}

/// One entry of a debug port's list.
#[derive(Debug)]
pub struct PageTarget {
    pub target_type: String,
    pub title: String,
    pub url: String,
    pub ws_url: Option<String>,
}

/// What goes wrong between a command and what is made of its reply.
#[derive(Debug)]
pub enum CdpError {
    /// The port lists no page that can be attached to.
    NoPages(u16),
    /// The port lists fewer pages.
    TargetOutOfRange(usize),
    /// The connection ended.
    StreamClosed,
    /// The connection broke.
    Recv,
    /// A message was no JSON.
    BadJson,
    /// The page closed the connection.
    SocketClosed,
    /// The command was answered with an error.
    Returned { method: String, error: Json },
    /// The expression threw.
    Threw(Json),
    /// The reply holds no value.
    NoResult,
    /// The injected script reported an error.
    ExportFailed(String),
    /// The injected script gave nothing.
    ExportEmpty,
    /// The harvester gave nothing.
    HarvestEmpty,
}

impl CdpError {
    /// The error in words; `held` is the JSON that it holds, as text.
    pub open spec fn words(self, held: Seq<char>) -> Seq<char> {
        match self {
            CdpError::NoPages(port) => "no page targets on port "@ + decimal(port as nat),
            CdpError::TargetOutOfRange(index) => "target_index "@ + decimal(index as nat)
                + " out of range"@,
            CdpError::StreamClosed => "CDP stream closed"@,
            CdpError::Recv => "CDP recv"@,
            CdpError::BadJson => "CDP JSON parse"@,
            CdpError::SocketClosed => "CDP socket closed"@,
            CdpError::Returned { method, .. } => "CDP "@ + method@ + " returned error: "@ + held,
            CdpError::Threw(_) => "Runtime.evaluate threw: "@ + held,
            CdpError::NoResult => "no result"@,
            CdpError::ExportFailed(e) => "export failed: "@ + e@,
            CdpError::ExportEmpty => "export returned empty"@,
            CdpError::HarvestEmpty => "asset harvester returned no value"@,
        }
    }

    /// The error in words; `held` is the JSON that it holds, as text.
    pub fn message(&self, held: &str) -> (r: String)
        ensures
            r@ == self.words(held@),
    {
        match self {
            CdpError::NoPages(port) => {
                let mut out = copy_of("no page targets on port ");
                out.push_str(decimal_text(*port as u64).as_str());
                out
            },
            CdpError::TargetOutOfRange(index) => {
                let mut out = copy_of("target_index ");
                out.push_str(decimal_text(*index as u64).as_str());
                out.push_str(" out of range");
                out
            },
            CdpError::StreamClosed => copy_of("CDP stream closed"),
            CdpError::Recv => copy_of("CDP recv"),
            CdpError::BadJson => copy_of("CDP JSON parse"),
            CdpError::SocketClosed => copy_of("CDP socket closed"),
            CdpError::Returned { method, error: _ } => {
                let mut out = copy_of("CDP ");
                out.push_str(method.as_str());
                out.push_str(" returned error: ");
                out.push_str(held);
                out
            },
            CdpError::Threw(_) => {
                let mut out = copy_of("Runtime.evaluate threw: ");
                out.push_str(held);
                out
            },
            CdpError::NoResult => copy_of("no result"),
            CdpError::ExportFailed(e) => {
                let mut out = copy_of("export failed: ");
                out.push_str(e.as_str());
                out
            },
            CdpError::ExportEmpty => copy_of("export returned empty"),
            CdpError::HarvestEmpty => copy_of("asset harvester returned no value"),
        }
    }
}

/// The places of the pages that can be attached to, in order.
pub open spec fn pages(targets: Seq<PageTarget>) -> Seq<int>
    decreases targets.len(),
{
    if targets.len() == 0 {
        Seq::empty()
    } else {
        let head = pages(targets.drop_last());
        if targets.last().target_type@ == "page"@ && targets.last().ws_url is Some {
            head.push(targets.len() - 1)
        } else {
            head
        }
    }
}

proof fn pages_are_attachable(targets: Seq<PageTarget>)
    ensures
        forall|i: int|
            0 <= i < pages(targets).len() ==> 0 <= (#[trigger] pages(targets)[i]) < targets.len()
                && targets[pages(targets)[i]].ws_url is Some,
    decreases targets.len(),
{
    if targets.len() > 0 {
        pages_are_attachable(targets.drop_last());
        let head = pages(targets.drop_last());
        assert forall|i: int| 0 <= i < pages(targets).len() implies 0 <= (#[trigger] pages(
            targets,
        )[i]) < targets.len() && targets[pages(targets)[i]].ws_url is Some by {
            if i < head.len() {
                assert(targets.drop_last()[head[i]] == targets[head[i]]);
            }
        }
    }
}

/// Where to attach: the `index`th page that can be attached to.
pub fn discover_target(targets: &Vec<PageTarget>, port: u16, index: usize) -> (r: Result<
    String,
    CdpError,
>)
    ensures
        match r {
            Ok(url) => index < pages(targets@).len() && (targets@[pages(
                targets@,
            )[index as int]].ws_url matches Some(u) && url@ == u@),
            Err(CdpError::NoPages(p)) => p == port && pages(targets@).len() == 0,
            Err(CdpError::TargetOutOfRange(i)) => i == index && 0 < pages(targets@).len() <= index,
            Err(_) => false,
        },
{
    let mut found: Vec<usize> = Vec::new();
    for i in 0..targets.len()
        invariant
            found@.map_values(|k: usize| k as int) == pages(targets@.take(i as int)),
    {
        let ghost before = found@;
        assert(targets@.take(i + 1).drop_last() =~= targets@.take(i as int));
        if same(targets[i].target_type.as_str(), "page") && targets[i].ws_url.is_some() {
            found.push(i);
            assert(found@.map_values(|k: usize| k as int) =~= before.map_values(
                |k: usize| k as int,
            ).push(i as int));
        }
    }
    proof {
        assert(targets@.take(targets@.len() as int) =~= targets@);
        assert(found@.len() == pages(targets@).len());
        pages_are_attachable(targets@);
    }
    if found.len() == 0 {
        return Err(CdpError::NoPages(port));
    }
    if index >= found.len() {
        return Err(CdpError::TargetOutOfRange(index));
    }
    let at = found[index];
    assert(at as int == found@.map_values(|k: usize| k as int)[index as int]);
    assert(at as int == pages(targets@)[index as int]);
    match &targets[at].ws_url {
        Some(url) => Ok(copy_of(url.as_str())),
        None => Err(CdpError::NoPages(port)),
    }
}

// ---------------------------------------------------------------------------
// Replies
// ---------------------------------------------------------------------------

/// What came in on the connection.
#[derive(Debug)]
pub enum Incoming {
    /// A text message, parsed; `None` where it is no JSON.
    Text(Option<Json>),
    /// A message that is not for this protocol (binary, ping, pong).
    Ignored,
    /// A request to close.
    Close,
    /// A failure to receive.
    Failed,
    /// The end.
    End,
}

/// What to do after a message came in.
#[derive(Debug)]
pub enum CallStep {
    /// Wait for the next one.
    Wait,
    /// The command has its reply.
    Done(Result<Json, CdpError>),
}

/// Take one message while waiting for the reply to the command with `id`. Messages
/// for others are passed over.
pub fn call_step(id: u64, method: &str, incoming: Incoming) -> (r: CallStep)
    ensures
        match incoming {
            Incoming::End => r matches CallStep::Done(Err(CdpError::StreamClosed)),
            Incoming::Failed => r matches CallStep::Done(Err(CdpError::Recv)),
            Incoming::Close => r matches CallStep::Done(Err(CdpError::SocketClosed)),
            Incoming::Ignored => r is Wait,
            Incoming::Text(None) => r matches CallStep::Done(Err(CdpError::BadJson)),
            Incoming::Text(Some(v)) => if is_reply(v@, id) {
                match v@.member("error"@) {
                    Some(e) => r matches CallStep::Done(
                        Err(CdpError::Returned { method: m, error }),
                    ) && m@ == method@ && error@ == e,
                    None => r matches CallStep::Done(Ok(result)) && result@ == member_or_null(
                        v@,
                        "result"@,
                    ),
                }
            } else {
                r is Wait
            },
        },
{
    let v = match incoming {
        Incoming::Text(Some(v)) => v,
        Incoming::Text(None) => {
            return CallStep::Done(Err(CdpError::BadJson));
        },
        Incoming::Ignored => {
            return CallStep::Wait;
        },
        Incoming::Close => {
            return CallStep::Done(Err(CdpError::SocketClosed));
        },
        Incoming::Failed => {
            return CallStep::Done(Err(CdpError::Recv));
        },
        Incoming::End => {
            return CallStep::Done(Err(CdpError::StreamClosed));
        },
    };
    let mine = match v.get("id") {
        Some(i) => match i.as_u64() {
            Some(n) => n == id,
            None => false,
        },
        None => false,
    };
    if !mine {
        return CallStep::Wait;
    }
    if let Some(e) = v.get("error") {
        return CallStep::Done(
            Err(CdpError::Returned { method: copy_of(method), error: e.clone() }),
        );
    }
    match v.get("result") {
        Some(result) => CallStep::Done(Ok(result.clone())),
        None => CallStep::Done(Ok(Json::Null)),
    }
}

/// The message is the reply to the command with `id`.
pub open spec fn is_reply(v: JsonView, id: u64) -> bool {
    v.member("id"@) matches Some(i) && i.whole() == Some(id)
}

/// A member, or null where there is none.
pub open spec fn member_or_null(v: JsonView, key: Seq<char>) -> JsonView {
    match v.member(key) {
        Some(m) => m,
        None => JsonView::Null,
    }
}

/// What a reply to `Runtime.evaluate` comes to: an error where the expression
/// threw.
pub fn evaluated(reply: Json) -> (r: Result<Json, CdpError>)
    ensures
        match reply@.member("exceptionDetails"@) {
            Some(e) => r matches Err(CdpError::Threw(exc)) && exc@ == e,
            None => r matches Ok(v) && v@ == reply@,
        },
{
    if let Some(e) = reply.get("exceptionDetails") {
        return Err(CdpError::Threw(e.clone()));
    }
    Ok(reply)
}

/// What the reply to a command comes to: what an evaluated expression threw is an
/// error.
pub fn answered(method: &str, reply: Json) -> (r: Result<Json, CdpError>)
    ensures
        match reply@.member("exceptionDetails"@) {
            Some(e) if method@ == "Runtime.evaluate"@ => r matches Err(CdpError::Threw(exc)) && exc@
                == e,
            _ => r matches Ok(v) && v@ == reply@,
        },
{
    if same(method, "Runtime.evaluate") {
        evaluated(reply)
    } else {
        Ok(reply)
    }
}

/// The value that an evaluation gave, where it gave one.
pub open spec fn value_of(reply: JsonView) -> Option<JsonView> {
    match reply.member("result"@) {
        Some(r) => r.member("value"@),
        None => None,
    }
}

/// The value that an evaluation gave, where it gave one.
pub fn evaluation_value(reply: &Json) -> (r: Option<&Json>)
    ensures
        match r {
            Some(v) => value_of(reply@) == Some(v@),
            None => value_of(reply@) is None,
        },
{
    match reply.get("result") {
        Some(inner) => inner.get("value"),
        None => None,
    }
}

// ---------------------------------------------------------------------------
// Commands
// ---------------------------------------------------------------------------

/// A command to send.
#[derive(Debug)]
pub struct CdpCommand {
    pub id: u64,
    pub method: String,
    pub params: Json,
}

/// What a [`CdpCommand`] holds.
#[verifier::ext_equal]
pub struct CommandView {
    pub id: u64,
    pub method: Seq<char>,
    pub params: JsonView,
}

impl View for CdpCommand {
    type V = CommandView;

    open spec fn view(&self) -> CommandView {
        CommandView { id: self.id, method: self.method@, params: self.params@ }
    }
}

fn command(id: u64, method: &str, members: Vec<(String, Json)>) -> (r: CdpCommand)
    ensures
        r@ == (CommandView {
            id,
            method: method@,
            params: JsonView::Object(members_view(members@)),
        }),
{
    CdpCommand { id, method: copy_of(method), params: Json::Object(members) }
}

/// A command without parameters.
pub open spec fn bare(id: u64, method: Seq<char>) -> CommandView {
    CommandView { id, method, params: JsonView::Object(Seq::empty()) }
}

/// Evaluate an expression, and wait for it where it is a promise.
pub open spec fn evaluate_and_wait(id: u64, expression: Seq<char>, wait: bool) -> CommandView {
    CommandView {
        id,
        method: "Runtime.evaluate"@,
        params: JsonView::Object(
            seq![
                ("expression"@, JsonView::Text(expression)),
                ("awaitPromise"@, JsonView::Bool(wait)),
                ("returnByValue"@, JsonView::Bool(true)),
            ],
        ),
    }
}

/// Evaluate an expression.
pub open spec fn evaluate(id: u64, expression: Seq<char>) -> CommandView {
    CommandView {
        id,
        method: "Runtime.evaluate"@,
        params: JsonView::Object(
            seq![
                ("expression"@, JsonView::Text(expression)),
                ("returnByValue"@, JsonView::Bool(true)),
            ],
        ),
    }
}

/// Press or release the left button at a point.
pub open spec fn mouse(id: u64, kind: Seq<char>, x: i64, y: i64, buttons: u64) -> CommandView {
    CommandView {
        id,
        method: "Input.dispatchMouseEvent"@,
        params: JsonView::Object(
            seq![
                ("type"@, JsonView::Text(kind)),
                ("x"@, JsonView::Number(JsonNumber::Units(x))),
                ("y"@, JsonView::Number(JsonNumber::Units(y))),
                ("button"@, JsonView::Text("left"@)),
                ("buttons"@, JsonView::Number(JsonNumber::Whole(buttons))),
                ("clickCount"@, JsonView::Number(JsonNumber::Whole(1))),
            ],
        ),
    }
}

/// A command without parameters.
pub fn bare_command(id: u64, method: &str) -> (r: CdpCommand)
    ensures
        r@ == bare(id, method@),
{
    command(id, method, Vec::new())
}

/// Evaluate an expression, and wait for it where it is a promise.
pub fn evaluate_and_wait_command(id: u64, expression: &str, wait: bool) -> (r: CdpCommand)
    ensures
        r@ == evaluate_and_wait(id, expression@, wait),
{
    let mut members: Vec<(String, Json)> = Vec::new();
    field(&mut members, "expression", text(expression));
    field(&mut members, "awaitPromise", Json::Bool(wait));
    field(&mut members, "returnByValue", Json::Bool(true));
    assert(JsonView::Object(members_view(members@)) == evaluate_and_wait(
        id,
        expression@,
        wait,
    ).params) by {
        assert(members_view(members@) =~= seq![
            ("expression"@, JsonView::Text(expression@)),
            ("awaitPromise"@, JsonView::Bool(wait)),
            ("returnByValue"@, JsonView::Bool(true)),
        ]);
    }
    command(id, "Runtime.evaluate", members)
}

/// Evaluate an expression.
pub fn evaluate_command(id: u64, expression: &str) -> (r: CdpCommand)
    ensures
        r@ == evaluate(id, expression@),
{
    let mut members: Vec<(String, Json)> = Vec::new();
    field(&mut members, "expression", text(expression));
    field(&mut members, "returnByValue", Json::Bool(true));
    assert(members_view(members@) =~= seq![
        ("expression"@, JsonView::Text(expression@)),
        ("returnByValue"@, JsonView::Bool(true)),
    ]);
    command(id, "Runtime.evaluate", members)
}

fn mouse_command(id: u64, kind: &str, x: i64, y: i64, buttons: u64) -> (r: CdpCommand)
    ensures
        r@ == mouse(id, kind@, x, y, buttons),
{
    let mut members: Vec<(String, Json)> = Vec::new();
    field(&mut members, "type", text(kind));
    field(&mut members, "x", Json::Number(JsonNumber::Units(x)));
    field(&mut members, "y", Json::Number(JsonNumber::Units(y)));
    field(&mut members, "button", text("left"));
    field(&mut members, "buttons", Json::Number(JsonNumber::Whole(buttons)));
    field(&mut members, "clickCount", Json::Number(JsonNumber::Whole(1)));
    assert(members_view(members@) =~= seq![
        ("type"@, JsonView::Text(kind@)),
        ("x"@, JsonView::Number(JsonNumber::Units(x))),
        ("y"@, JsonView::Number(JsonNumber::Units(y))),
        ("button"@, JsonView::Text("left"@)),
        ("buttons"@, JsonView::Number(JsonNumber::Whole(buttons))),
        ("clickCount"@, JsonView::Number(JsonNumber::Whole(1))),
    ]);
    command(id, "Input.dispatchMouseEvent", members)
}

/// The probe expression, with its placeholders. From the element at the point it
/// expands to the nearest visually distinct or structural container, then walks up
/// further parents; it gives the rectangle with role and label, or null.
pub const PROBE_JS: &'static str = "(function(){
  try {
    var x=__X__, y=__Y__, widen=__WIDEN__;
    var el = document.elementFromPoint(x,y);
    if(!el) return null;
    function expand(el){
      var tag=(el.tagName||'').toLowerCase();
      if(['div','section','article','aside','nav','header','footer','main','form','fieldset','ul','ol','table','tbody','thead','tr'].indexOf(tag)>=0) return el;
      if(['input','select','textarea','button','a','span','img','svg','label','i','em','strong','p','h1','h2','h3','h4','h5','h6'].indexOf(tag)<0) return el;
      var sr=el.getBoundingClientRect(); var startArea=sr.width*sr.height; if(!startArea) return el;
      var maxA=window.innerWidth*window.innerHeight*0.4, minG=1.2;
      var cur=el.parentElement, depth=0, best=null;
      while(cur&&cur!==document.body&&cur!==document.documentElement&&depth<8){
        var cr=cur.getBoundingClientRect(); var cA=cr.width*cr.height;
        if(cA>maxA) break;
        if(cA<startArea*minG){cur=cur.parentElement;depth++;continue;}
        var cs=getComputedStyle(cur);
        var distinct=(cs.backgroundColor&&cs.backgroundColor!=='rgba(0, 0, 0, 0)'&&cs.backgroundColor!=='transparent')||parseFloat(cs.borderTopWidth)>0||parseFloat(cs.borderLeftWidth)>0||parseFloat(cs.borderTopLeftRadius)>0||(cs.boxShadow&&cs.boxShadow!=='none')||parseFloat(cs.paddingTop)>=4||parseFloat(cs.paddingLeft)>=4;
        var structural=['form','fieldset','label','li','tr','article','section','header','footer','aside','nav'].indexOf((cur.tagName||'').toLowerCase())>=0;
        if(distinct||structural){return cur;}
        cur=cur.parentElement;depth++;
      }
      return best||el;
    }
    el=expand(el);
    for(var i=0;i<widen&&el.parentElement&&el.parentElement!==document.body&&el.parentElement!==document.documentElement;i++) el=el.parentElement;
    var r=el.getBoundingClientRect();
    var label=(el.getAttribute&&(el.getAttribute('aria-label')||el.getAttribute('data-qa')))||'';
    if(!label) label=(el.textContent||'').trim().slice(0,60);
    return {x:r.left,y:r.top,w:r.width,h:r.height,role:((el.getAttribute&&el.getAttribute('role'))||'')+'',tag:(el.tagName||'').toLowerCase(),label:label};
  } catch(e){ return null; }
})()";

/// The DOM walker, with its placeholders. From the element at the point it expands
/// as [`PROBE_JS`] does, then walks what is rendered below, to a depth and a number
/// of nodes; it gives a nested tree, or null.
pub const DOM_TREE_JS: &'static str = "(function(){
  try{
    var x=__X__, y=__Y__, MAXD=__MAXD__, BUDGET=__BUDGET__, count=0;
    var start=document.elementFromPoint(x,y);
    if(!start) return null;
    function expand(el){
      var tag=(el.tagName||'').toLowerCase();
      if(['div','section','article','aside','nav','header','footer','main','form','fieldset','ul','ol','table','tbody','thead','tr'].indexOf(tag)>=0) return el;
      if(['input','select','textarea','button','a','span','img','svg','label','i','em','strong','p','h1','h2','h3','h4','h5','h6'].indexOf(tag)<0) return el;
      var sr=el.getBoundingClientRect(); var startArea=sr.width*sr.height; if(!startArea) return el;
      var maxA=window.innerWidth*window.innerHeight*0.4, minG=1.2;
      var cur=el.parentElement, depth=0;
      while(cur&&cur!==document.body&&cur!==document.documentElement&&depth<8){
        var cr=cur.getBoundingClientRect(); var cA=cr.width*cr.height;
        if(cA>maxA) break;
        if(cA<startArea*minG){cur=cur.parentElement;depth++;continue;}
        var cs=getComputedStyle(cur);
        var distinct=(cs.backgroundColor&&cs.backgroundColor!=='rgba(0, 0, 0, 0)'&&cs.backgroundColor!=='transparent')||parseFloat(cs.borderTopWidth)>0||parseFloat(cs.borderTopLeftRadius)>0||(cs.boxShadow&&cs.boxShadow!=='none')||parseFloat(cs.paddingTop)>=4;
        var structural=['form','fieldset','label','li','tr','article','section','header','footer','aside','nav'].indexOf((cur.tagName||'').toLowerCase())>=0;
        if(distinct||structural) return cur;
        cur=cur.parentElement;depth++;
      }
      return el;
    }
    function role(el){
      var r=el.getAttribute&&el.getAttribute('role'); if(r) return r;
      var t=(el.tagName||'').toLowerCase();
      var m={button:'AXButton',a:'AXLink',input:'AXTextField',textarea:'AXTextArea',img:'AXImage',svg:'AXImage',select:'AXPopUpButton',nav:'AXGroup',main:'AXGroup',header:'AXGroup',footer:'AXGroup',ul:'AXList',ol:'AXList',li:'AXListItem',table:'AXTable',tr:'AXRow',td:'AXCell',th:'AXCell',h1:'AXHeading',h2:'AXHeading',h3:'AXHeading',h4:'AXHeading',h5:'AXHeading',h6:'AXHeading',p:'AXStaticText',label:'AXStaticText',span:'AXStaticText'};
      return m[t]||'AXGroup';
    }
    function nm(el){
      var n=(el.getAttribute&&(el.getAttribute('aria-label')||el.getAttribute('alt')||el.getAttribute('title')))||'';
      if(!n){var t='';for(var c=el.firstChild;c;c=c.nextSibling){if(c.nodeType===3)t+=c.nodeValue;}n=t.trim().slice(0,80);}
      return n;
    }
    function ident(el){return ((el.id||(el.getAttribute&&el.getAttribute('data-qa'))||'')+'').slice(0,60);}
    function walk(el,depth){
      if(count>=BUDGET) return null;
      var r=el.getBoundingClientRect();
      if(r.width<1||r.height<1) return null;
      var cs=getComputedStyle(el);
      if(cs.visibility==='hidden'||cs.display==='none') return null;
      count++;
      var node={role:role(el),name:nm(el),ident:ident(el),tag:(el.tagName||'').toLowerCase(),x:r.left,y:r.top,w:r.width,h:r.height,children:[]};
      if(depth<MAXD){
        for(var c=el.firstElementChild;c;c=c.nextElementSibling){
          var t=(c.tagName||'').toLowerCase();
          if(t==='script'||t==='style'||t==='meta'||t==='link'||t==='noscript') continue;
          var ch=walk(c,depth+1);
          if(ch) node.children.push(ch);
          if(count>=BUDGET){node.truncated=true;break;}
        }
      }else if(el.firstElementChild){node.truncated=true;}
      return node;
    }
    return walk(expand(start),0);
  }catch(e){ return null; }
})()";

/// Asks the injected script for the selection.
pub const EXPORT_JS: &'static str = "
        new Promise((resolve) => {
            const msgId = Math.random().toString(36).slice(2);
            const handler = (event) => {
                if (event.data && event.data.msgId === msgId && 'result' in event.data) {
                    window.removeEventListener('message', handler);
                    resolve(event.data.result);
                }
            };
            window.addEventListener('message', handler);
            window.postMessage({fromParent:true, msgId, type:'EXPORT_SELECTION'}, '*');
            setTimeout(() => {
                window.removeEventListener('message', handler);
                resolve({error:'EXPORT_SELECTION timed out'});
            }, 5000);
        })
    ";

// ---------------------------------------------------------------------------
// Extraction at a point of the page
// ---------------------------------------------------------------------------

/// Arms the injected script's pick mode.
pub const ARM_JS: &'static str = "window.postMessage({fromParent:true, msgId:1, type:'START_PICK_MODE'}, '*'); 'armed'";

/// The expression that injects a script so that what it throws is only reported.
pub open spec fn inject_text(script: Seq<char>) -> Seq<char> {
    "(function(){try{"@ + script
        + "\n}catch(e){console.warn('[VibeExtract cdp] inject:',e);}})();"@
}

/// The commands of an extraction at a point of the page, in order: inject the
/// script, arm it, click, and ask for the selection.
pub open spec fn viewport_commands(x: i64, y: i64, script: Seq<char>) -> Seq<CommandView> {
    seq![
        bare(1, "Runtime.enable"@),
        bare(2, "Page.enable"@),
        evaluate_and_wait(3, inject_text(script), false),
        evaluate(4, ARM_JS@),
        mouse(5, "mousePressed"@, x, y, 1),
        mouse(6, "mouseReleased"@, x, y, 0),
        evaluate_and_wait(7, EXPORT_JS@, true),
    ]
}

/// The `step`th command of an extraction at a point of the page.
pub fn viewport_command(step: usize, x: i64, y: i64, script: &str) -> (r: Option<CdpCommand>)
    ensures
        match r {
            Some(c) => step < 7 && c@ == viewport_commands(x, y, script@)[step as int],
            None => step >= 7,
        },
        step == 4 || step == 5 ==> (r matches Some(c) && {
            &&& c.method@ == "Input.dispatchMouseEvent"@
            &&& c.params@.member("x"@) == Some(JsonView::Number(JsonNumber::Units(x)))
            &&& c.params@.member("y"@) == Some(JsonView::Number(JsonNumber::Units(y)))
        }),
{
    proof {
        the_click_is_at_the_point(x, y, script@);
    }
    if step == 0 {
        Some(bare_command(1, "Runtime.enable"))
    } else if step == 1 {
        Some(bare_command(2, "Page.enable"))
    } else if step == 2 {
        let mut inject = copy_of("(function(){try{");
        inject.push_str(script);
        inject.push_str("\n}catch(e){console.warn('[VibeExtract cdp] inject:',e);}})();");
        Some(evaluate_and_wait_command(3, inject.as_str(), false))
    } else if step == 3 {
        Some(evaluate_command(4, ARM_JS))
    } else if step == 4 {
        Some(mouse_command(5, "mousePressed", x, y, 1))
    } else if step == 5 {
        Some(mouse_command(6, "mouseReleased", x, y, 0))
    } else if step == 6 {
        Some(evaluate_and_wait_command(7, EXPORT_JS, true))
    } else {
        None
    }
}

/// Asks a page for the heights of its window and of its content.
pub const METRICS_JS: &'static str = "({outerH: window.outerHeight, innerH: window.innerHeight})";

/// The commands that evaluate one expression in a page.
pub open spec fn query_commands(expression: Seq<char>) -> Seq<CommandView> {
    seq![bare(1, "Runtime.enable"@), evaluate(2, expression)]
}

/// The `step`th command of evaluating one expression in a page.
pub fn query_command(step: usize, expression: &str) -> (r: Option<CdpCommand>)
    ensures
        match r {
            Some(c) => step < 2 && c@ == query_commands(expression@)[step as int],
            None => step >= 2,
        },
{
    if step == 0 {
        Some(bare_command(1, "Runtime.enable"))
    } else if step == 1 {
        Some(evaluate_command(2, expression))
    } else {
        None
    }
}

/// The commands of a harvest up to the manifest; the captures of single images follow.
pub open spec fn harvest_commands(script: Seq<char>) -> Seq<CommandView> {
    seq![
        bare(1, "Runtime.enable"@),
        bare(2, "Page.enable"@),
        evaluate_and_wait(3, script, true),
    ]
}

/// The `step`th command of a harvest up to the manifest.
pub fn harvest_command(step: usize, script: &str) -> (r: Option<CdpCommand>)
    ensures
        match r {
            Some(c) => step < 3 && c@ == harvest_commands(script@)[step as int],
            None => step >= 3,
        },
{
    if step == 0 {
        Some(bare_command(1, "Runtime.enable"))
    } else if step == 1 {
        Some(bare_command(2, "Page.enable"))
    } else if step == 2 {
        Some(evaluate_and_wait_command(3, script, true))
    } else {
        None
    }
}

/// The manifest that a harvest gave.
pub fn harvest_manifest(reply: &Json) -> (r: Result<Json, CdpError>)
    ensures
        match value_of(reply@) {
            Some(v) => r matches Ok(m) && m@ == v,
            None => r matches Err(CdpError::HarvestEmpty),
        },
{
    match evaluation_value(reply) {
        Some(v) => Ok(v.clone()),
        None => Err(CdpError::HarvestEmpty),
    }
}

/// The text of a member, empty where there is none.
pub open spec fn text_or_empty(v: JsonView, key: Seq<char>) -> Seq<char> {
    match v.member_text(key) {
        Some(s) => s,
        None => Seq::empty(),
    }
}

fn text_member(v: &Json, key: &str) -> (r: String)
    ensures
        r@ == text_or_empty(v@, key@),
{
    match v.get_str(key) {
        Some(s) => copy_of(s),
        None => String::new(),
    }
}

/// What the injected script exported: TOON and HTML.
pub fn viewport_export(reply: &Json) -> (r: Result<(String, String), CdpError>)
    ensures
        match value_of(reply@) {
            None => r matches Err(CdpError::NoResult),
            Some(payload) => match payload.member_text("error"@) {
                Some(e) => r matches Err(CdpError::ExportFailed(m)) && m@ == e,
                None => {
                    let toon = text_or_empty(payload, "toon"@);
                    let html = text_or_empty(payload, "html"@);
                    if toon.len() == 0 && html.len() == 0 {
                        r matches Err(CdpError::ExportEmpty)
                    } else {
                        r matches Ok(pair) && pair.0@ == toon && pair.1@ == html
                    }
                },
            },
        },
{
    let payload = match evaluation_value(reply) {
        Some(v) => v,
        None => {
            return Err(CdpError::NoResult);
        },
    };
    if let Some(e) = payload.get_str("error") {
        return Err(CdpError::ExportFailed(copy_of(e)));
    }
    let toon = text_member(payload, "toon");
    let html = text_member(payload, "html");
    if toon.as_str().is_empty() && html.as_str().is_empty() {
        return Err(CdpError::ExportEmpty);
    }
    Ok((toon, html))
}

/// The result of an extraction through the debug port.
pub fn viewport_result(toon: String, html: String, ax_tree: Option<String>) -> (r: CaptureResult)
    ensures
        r.strategy@ == "cdp"@,
        r.fidelity@ == "Pixel-perfect (runtime CDP)"@,
        r.toon@ == toon@,
        r.html@ == html@,
        r.screenshot_png_b64 is None,
        r.diagnostics@ == Seq::<String>::empty(),
        r.ax_tree == ax_tree,
{
    CaptureResult {
        strategy: copy_of("cdp"),
        fidelity: copy_of("Pixel-perfect (runtime CDP)"),
        toon,
        html,
        screenshot_png_b64: None,
        diagnostics: Vec::new(),
        ax_tree,
    }
}

// ---------------------------------------------------------------------------
// Scripts with a point
// ---------------------------------------------------------------------------

/// A coordinate in points with two decimals, a tie going to the even one.
pub open spec fn two_decimals(v: int) -> Seq<char> {
    let hundredths = half_even(100 * magnitude(v), 64);
    signed(
        v,
        decimal(hundredths / 100) + "."@ + seq![
            digit((hundredths / 10 % 10) as int),
            digit((hundredths % 10) as int),
        ],
    )
}

/// A coordinate in points with two decimals.
pub fn two_decimals_text(v: i64) -> (r: String)
    ensures
        r@ == two_decimals(v as int),
{
    let m = magnitude_of(v as i128);
    let scaled: u128 = 100 * m;
    let q: u128 = scaled / 64;
    let rest: u128 = scaled % 64;
    let hundredths: u128 = if rest < 32 {
        q
    } else if rest > 32 {
        q + 1
    } else {
        q + q % 2
    };
    assert(hundredths == half_even(100 * magnitude(v as int), 64));
    let mut out = String::new();
    if v < 0 {
        out.push('-');
    }
    out.push_str(decimal_text((hundredths / 100) as u64).as_str());
    out.push_str(".");
    let tens: u8 = 48 + (hundredths / 10 % 10) as u8;
    let ones: u8 = 48 + (hundredths % 10) as u8;
    out.push(tens as char);
    out.push(ones as char);
    assert(out@ =~= two_decimals(v as int));
    out
}

/// The probe for a point, which walks up `widen` more parents.
pub open spec fn probe_text(x: i64, y: i64, widen: nat) -> Seq<char> {
    let a = replaced(PROBE_JS@, "__X__"@, two_decimals(x as int), 0);
    let b = replaced(a, "__Y__"@, two_decimals(y as int), 0);
    replaced(b, "__WIDEN__"@, decimal(widen), 0)
}

/// The probe for a point, which walks up `widen` more parents.
pub fn probe_expression(x: i64, y: i64, widen: u32) -> (r: String)
    ensures
        r@ == probe_text(x, y, widen as nat),
{
    proof {
        reveal_strlit("__X__");
        reveal_strlit("__Y__");
        reveal_strlit("__WIDEN__");
    }
    let a = replace_all(PROBE_JS, "__X__", two_decimals_text(x).as_str());
    let b = replace_all(a.as_str(), "__Y__", two_decimals_text(y).as_str());
    replace_all(b.as_str(), "__WIDEN__", decimal_text(widen as u64).as_str())
}

/// The DOM walker for a point, to a depth and a number of nodes.
pub open spec fn dom_tree_text(x: i64, y: i64, max_depth: nat, max_nodes: nat) -> Seq<char> {
    let a = replaced(DOM_TREE_JS@, "__X__"@, two_decimals(x as int), 0);
    let b = replaced(a, "__Y__"@, two_decimals(y as int), 0);
    let c = replaced(b, "__MAXD__"@, decimal(max_depth), 0);
    replaced(c, "__BUDGET__"@, decimal(max_nodes), 0)
}

/// The DOM walker for a point, to a depth and a number of nodes.
pub fn dom_tree_expression(x: i64, y: i64, max_depth: u32, max_nodes: u32) -> (r: String)
    ensures
        r@ == dom_tree_text(x, y, max_depth as nat, max_nodes as nat),
{
    proof {
        reveal_strlit("__X__");
        reveal_strlit("__Y__");
        reveal_strlit("__MAXD__");
        reveal_strlit("__BUDGET__");
    }
    let a = replace_all(DOM_TREE_JS, "__X__", two_decimals_text(x).as_str());
    let b = replace_all(a.as_str(), "__Y__", two_decimals_text(y).as_str());
    let c = replace_all(b.as_str(), "__MAXD__", decimal_text(max_depth as u64).as_str());
    replace_all(c.as_str(), "__BUDGET__", decimal_text(max_nodes as u64).as_str())
}

/// The command that follows an extraction at a point of the page: the DOM tree there,
/// to a depth and a number of nodes that hold big components whole.
pub fn viewport_tree_command(x: i64, y: i64) -> (r: CdpCommand)
    ensures
        r@ == evaluate(8, dom_tree_text(x, y, 20, 1500)),
{
    evaluate_command(8, dom_tree_expression(x, y, 20, 1500).as_str())
}

/// One element resolved by the probe: its rectangle in the viewport with role, tag
/// and label.
#[derive(Debug)]
pub struct ProbeHit {
    pub x: i64,
    pub y: i64,
    pub w: i64,
    pub h: i64,
    pub role: String,
    pub tag: String,
    pub label: String,
}

/// What a probe found, where it is at least one point wide and high.
pub fn visible_hit(hit: Option<ProbeHit>) -> (r: Option<ProbeHit>)
    ensures
        r == (match hit {
            Some(h) if h.w >= 64 && h.h >= 64 => hit,
            _ => None,
        }),
{
    match hit {
        Some(h) => {
            if h.w < 64 || h.h < 64 {
                None
            } else {
                Some(h)
            }
        },
        None => None,
    }
}

// ---------------------------------------------------------------------------
// DOM trees
// ---------------------------------------------------------------------------

/// One DOM element as the walker reports it, relative to the viewport.
#[derive(Debug)]
pub struct DomNode {
    pub role: String,
    pub name: String,
    pub ident: String,
    pub tag: String,
    pub x: i64,
    pub y: i64,
    pub w: i64,
    pub h: i64,
    pub truncated: bool,
    pub children: Vec<DomNode>,
}

/// Every position in the tree is in range.
pub open spec fn dom_in_range(d: DomNode) -> bool
    decreases d,
{
    in_range(d.x) && in_range(d.y) && doms_in_range(d.children@)
}

/// Every position in the trees is in range.
pub open spec fn doms_in_range(s: Seq<DomNode>) -> bool
    decreases s,
{
    if s.len() == 0 {
        true
    } else {
        doms_in_range(s.drop_last()) && dom_in_range(s.last())
    }
}

proof fn doms_in_range_pointwise(s: Seq<DomNode>, i: int)
    requires
        doms_in_range(s),
        0 <= i < s.len(),
    ensures
        dom_in_range(s[i]),
    decreases s.len(),
{
    if i < s.len() - 1 {
        doms_in_range_pointwise(s.drop_last(), i);
    }
}

/// `s` where it is not empty.
pub open spec fn nonempty(s: Seq<char>) -> Option<Seq<char>> {
    if s.len() == 0 {
        None
    } else {
        Some(s)
    }
}

/// A DOM tree in the form of an accessibility tree, each rectangle moved by the
/// origin. Every node is marked as coming from the DOM.
pub open spec fn dom_node_view(d: DomNode, ox: i64, oy: i64) -> NodeView
    decreases d,
{
    NodeView {
        role: if d.role@.len() == 0 {
            "AXGroup"@
        } else {
            d.role@
        },
        subrole: None,
        name: d.name@,
        identifier: nonempty(d.ident@),
        value: None,
        role_description: nonempty(d.tag@),
        bounds: Some(ScreenRect { x: (d.x + ox) as i64, y: (d.y + oy) as i64, w: d.w, h: d.h }),
        bg: None,
        state: Seq::empty(),
        min_value: None,
        max_value: None,
        truncated: d.truncated,
        child_source: Some("CDP-DOM"@),
        children: dom_node_views(d.children@, ox, oy),
    }
}

/// DOM trees in the form of accessibility trees.
pub open spec fn dom_node_views(s: Seq<DomNode>, ox: i64, oy: i64) -> Seq<NodeView>
    decreases s,
{
    if s.len() == 0 {
        Seq::empty()
    } else {
        dom_node_views(s.drop_last(), ox, oy).push(dom_node_view(s.last(), ox, oy))
    }
}

fn copy_nonempty(s: &str) -> (r: Option<String>)
    ensures
        opt_view(r) == nonempty(s@),
{
    if s.is_empty() {
        None
    } else {
        Some(copy_of(s))
    }
}

/// Convert a DOM subtree to a [`Node`], offsetting each viewport rect by `(ox, oy)`
/// (the web-content origin) to get screen-space bounds; pass `(0, 0)` to keep
/// viewport-relative.
pub fn dom_to_node(d: &DomNode, ox: i64, oy: i64) -> (r: Node)
    requires
        dom_in_range(*d),
        in_range(ox),
        in_range(oy),
    ensures
        r@ == dom_node_view(*d, ox, oy),
    decreases d,
{
    let mut children: Vec<Node> = Vec::new();
    for i in 0..d.children.len()
        invariant
            dom_in_range(*d),
            in_range(ox),
            in_range(oy),
            node_views(children@) == dom_node_views(d.children@.take(i as int), ox, oy),
    {
        proof {
            doms_in_range_pointwise(d.children@, i as int);
            assert(d.children@.take(i + 1).drop_last() =~= d.children@.take(i as int));
        }
        let ghost before = children@;
        let kid = dom_to_node(&d.children[i], ox, oy);
        children.push(kid);
        assert(children@.drop_last() =~= before);
    }
    assert(d.children@.take(d.children@.len() as int) =~= d.children@);
    let role = if d.role.as_str().is_empty() {
        copy_of("AXGroup")
    } else {
        copy_of(d.role.as_str())
    };
    let node = Node {
        role,
        subrole: None,
        name: copy_of(d.name.as_str()),
        identifier: copy_nonempty(d.ident.as_str()),
        value: None,
        role_description: copy_nonempty(d.tag.as_str()),
        bounds: Some(ScreenRect { x: d.x + ox, y: d.y + oy, w: d.w, h: d.h }),
        bg: None,
        state: Vec::new(),
        min_value: None,
        max_value: None,
        truncated: d.truncated,
        child_source: Some(copy_of("CDP-DOM")),
        children,
    };
    assert(node@.state =~= Seq::<Seq<char>>::empty());
    assert(node@ =~= dom_node_view(*d, ox, oy));
    node
}

// ---------------------------------------------------------------------------
// Where a point of the window is in the page
// ---------------------------------------------------------------------------

/// A point of the window, in viewport coordinates: the window's own bars, as high as
/// the window is higher than its content, are above the page.
pub fn viewport_point(x: i64, y: i64, outer_height: Option<i64>, inner_height: Option<i64>) -> (r: (
    i64,
    i64,
))
    requires
        -4 * LIMIT <= y <= 4 * LIMIT,
        outer_height matches Some(h) ==> in_range(h),
        inner_height matches Some(h) ==> in_range(h),
    ensures
        r.0 == x,
        r.1 == y - bars(outer_height, inner_height),
{
    let outer: i64 = match outer_height {
        Some(h) => h,
        None => 0,
    };
    let inner: i64 = match inner_height {
        Some(h) => h,
        None => 0,
    };
    let above: i64 = if outer > inner {
        outer - inner
    } else {
        0
    };
    (x, y - above)
}

/// How high the bars of a window are; a height that the page did not report counts
/// as zero.
pub open spec fn bars(outer_height: Option<i64>, inner_height: Option<i64>) -> int {
    let outer = match outer_height {
        Some(h) => h as int,
        None => 0,
    };
    let inner = match inner_height {
        Some(h) => h as int,
        None => 0,
    };
    if outer > inner {
        outer - inner
    } else {
        0
    }
}

// ---------------------------------------------------------------------------
// Harvesting assets
// ---------------------------------------------------------------------------

/// The number is one or more.
pub open spec fn at_least_one(n: JsonNumber) -> bool {
    match n {
        JsonNumber::Whole(k) => k >= 1,
        JsonNumber::Negative(_) => false,
        JsonNumber::Double(bits) => 0x3ff0000000000000 <= bits < 0x8000000000000000,
        JsonNumber::Units(u) => u >= 64,
    }
}

fn is_at_least_one(n: JsonNumber) -> (r: bool)
    ensures
        r == at_least_one(n),
{
    match n {
        JsonNumber::Whole(k) => k >= 1,
        JsonNumber::Negative(_) => false,
        JsonNumber::Double(bits) => 0x3ff0000000000000 <= bits && bits < 0x8000000000000000,
        JsonNumber::Units(u) => u >= 64,
    }
}

/// A number as a double. A coordinate is one already.
pub open spec fn as_double(n: JsonNumber) -> JsonNumber {
    match n {
        JsonNumber::Whole(k) => JsonNumber::Double(double_of(k as nat) as u64),
        JsonNumber::Negative(i) => JsonNumber::Double(
            if i < 0 {
                (0x8000000000000000 + double_of((-i) as nat)) as u64
            } else {
                double_of(i as nat) as u64
            },
        ),
        JsonNumber::Double(bits) => JsonNumber::Double(bits),
        JsonNumber::Units(u) => JsonNumber::Units(u),
    }
}

fn to_double(n: JsonNumber) -> (r: JsonNumber)
    ensures
        r == as_double(n),
{
    match n {
        JsonNumber::Whole(k) => JsonNumber::Double(double_bits(k)),
        JsonNumber::Negative(i) => JsonNumber::Double(
            if i < 0 {
                0x8000000000000000 + double_bits((-(i as i128)) as u64)
            } else {
                double_bits(i as u64)
            },
        ),
        JsonNumber::Double(bits) => JsonNumber::Double(bits),
        JsonNumber::Units(u) => JsonNumber::Units(u),
    }
}

/// The bits of the doubles zero and one.
pub const ZERO: u64 = 0;

pub const ONE: u64 = 0x3ff0000000000000;

/// The number that a member is, as a double, or `fallback` where it is none.
pub open spec fn number_or(v: JsonView, key: Seq<char>, fallback: JsonNumber) -> JsonNumber {
    match v.member(key) {
        Some(JsonView::Number(n)) => as_double(n),
        _ => fallback,
    }
}

fn number_member(v: &Json, key: &str, fallback: JsonNumber) -> (r: JsonNumber)
    ensures
        r == number_or(v@, key@, fallback),
{
    match v.get(key) {
        Some(Json::Number(n)) => to_double(*n),
        _ => fallback,
    }
}

/// Device pixels per CSS pixel, at least one.
pub open spec fn pixel_ratio(manifest: JsonView) -> JsonNumber {
    let n = number_or(manifest, "dpr"@, JsonNumber::Double(ONE));
    if at_least_one(n) {
        n
    } else {
        JsonNumber::Double(ONE)
    }
}

/// A part of the page.
#[derive(Debug, Clone, Copy, PartialEq, Eq, Structural)]
pub struct Clip {
    pub x: JsonNumber,
    pub y: JsonNumber,
    pub w: JsonNumber,
    pub h: JsonNumber,
}

/// The part of the page to capture for an image that the page could not read: it
/// has no bytes, and a rectangle of at least one by one.
pub open spec fn clip_of(image: JsonView) -> Option<Clip> {
    if image.member_text("base64"@) is Some {
        None
    } else {
        match image.member("rect"@) {
            Some(rect) => {
                let w = number_or(rect, "w"@, JsonNumber::Double(ZERO));
                let h = number_or(rect, "h"@, JsonNumber::Double(ZERO));
                if at_least_one(w) && at_least_one(h) {
                    Some(
                        Clip {
                            x: number_or(rect, "x"@, JsonNumber::Double(ZERO)),
                            y: number_or(rect, "y"@, JsonNumber::Double(ZERO)),
                            w,
                            h,
                        },
                    )
                } else {
                    None
                }
            },
            None => None,
        }
    }
}

fn image_clip(image: &Json) -> (r: Option<Clip>)
    ensures
        r == clip_of(image@),
{
    if image.get_str("base64").is_some() {
        return None;
    }
    let rect = match image.get("rect") {
        Some(rect) => rect,
        None => {
            return None;
        },
    };
    let w = number_member(rect, "w", JsonNumber::Double(ZERO));
    let h = number_member(rect, "h", JsonNumber::Double(ZERO));
    if !is_at_least_one(w) || !is_at_least_one(h) {
        return None;
    }
    Some(
        Clip {
            x: number_member(rect, "x", JsonNumber::Double(ZERO)),
            y: number_member(rect, "y", JsonNumber::Double(ZERO)),
            w,
            h,
        },
    )
}

/// Capture a part of the page.
pub open spec fn capture_clip(id: u64, clip: Clip, scale: JsonNumber) -> CommandView {
    CommandView {
        id,
        method: "Page.captureScreenshot"@,
        params: JsonView::Object(
            seq![
                ("format"@, JsonView::Text("png"@)),
                ("captureBeyondViewport"@, JsonView::Bool(true)),
                ("fromSurface"@, JsonView::Bool(true)),
                (
                    "clip"@,
                    JsonView::Object(
                        seq![
                            ("x"@, JsonView::Number(clip.x)),
                            ("y"@, JsonView::Number(clip.y)),
                            ("width"@, JsonView::Number(clip.w)),
                            ("height"@, JsonView::Number(clip.h)),
                            ("scale"@, JsonView::Number(scale)),
                        ],
                    ),
                ),
            ],
        ),
    }
}

fn capture_clip_command(id: u64, clip: Clip, scale: JsonNumber) -> (r: CdpCommand)
    ensures
        r@ == capture_clip(id, clip, scale),
{
    let mut area: Vec<(String, Json)> = Vec::new();
    field(&mut area, "x", Json::Number(clip.x));
    field(&mut area, "y", Json::Number(clip.y));
    field(&mut area, "width", Json::Number(clip.w));
    field(&mut area, "height", Json::Number(clip.h));
    field(&mut area, "scale", Json::Number(scale));
    let mut members: Vec<(String, Json)> = Vec::new();
    field(&mut members, "format", text("png"));
    field(&mut members, "captureBeyondViewport", Json::Bool(true));
    field(&mut members, "fromSurface", Json::Bool(true));
    let ghost area_view = members_view(area@);
    field(&mut members, "clip", Json::Object(area));
    proof {
        assert(area_view =~= seq![
            ("x"@, JsonView::Number(clip.x)),
            ("y"@, JsonView::Number(clip.y)),
            ("width"@, JsonView::Number(clip.w)),
            ("height"@, JsonView::Number(clip.h)),
            ("scale"@, JsonView::Number(scale)),
        ]);
        assert(members_view(members@) =~= seq![
            ("format"@, JsonView::Text("png"@)),
            ("captureBeyondViewport"@, JsonView::Bool(true)),
            ("fromSurface"@, JsonView::Bool(true)),
            ("clip"@, JsonView::Object(area_view)),
        ]);
    }
    command(id, "Page.captureScreenshot", members)
}

/// The members with one set: in place where the key is there, else at the end.
pub open spec fn with_member(
    members: Seq<(Seq<char>, JsonView)>,
    key: Seq<char>,
    value: JsonView,
) -> Seq<(Seq<char>, JsonView)> {
    match place_of(members, key, 0) {
        Some(i) => members.update(i, (key, value)),
        None => members.push((key, value)),
    }
}

fn set_member(members: &mut Vec<(String, Json)>, key: &str, value: Json)
    ensures
        members_view(final(members)@) == with_member(members_view(old(members)@), key@, value@),
{
    let ghost views = members_view(members@);
    proof {
        members_view_pointwise(members@);
    }
    let n = members.len();
    let mut i: usize = 0;
    while i < n
        invariant
            n == members.len(),
            i <= n,
            members@ == old(members)@,
            views == members_view(members@),
            views.len() == members@.len(),
            forall|k: int|
                0 <= k < members@.len() ==> #[trigger] views[k] == (members@[k].0@, members@[k].1@),
            place_of(views, key@, 0) == place_of(views, key@, i as int),
        decreases n - i,
    {
        assert(views[i as int] == (members@[i as int].0@, members@[i as int].1@));
        if same(members[i].0.as_str(), key) {
            let ghost before = members@;
            members.set(i, (copy_of(key), value));
            proof {
                members_view_pointwise(members@);
                let now = members_view(members@);
                assert forall|k: int| 0 <= k < now.len() implies now[k] == views.update(
                    i as int,
                    (key@, value@),
                )[k] by {
                    assert(now[k] == (members@[k].0@, members@[k].1@));
                    assert(views[k] == (before[k].0@, before[k].1@));
                }
                assert(now =~= views.update(i as int, (key@, value@)));
            }
            return;
        }
        i += 1;
    }
    field(members, key, value);
}

/// An image with captured pixels in place of those that the page could not read.
pub open spec fn filled_image(image: JsonView, data: Option<Seq<char>>) -> JsonView {
    match (clip_of(image), data, image) {
        (Some(_), Some(d), JsonView::Object(members)) => {
            let a = with_member(members, "base64"@, JsonView::Text(d));
            let b = with_member(a, "mime"@, JsonView::Text("image/png"@));
            JsonView::Object(with_member(b, "via"@, JsonView::Text("captureScreenshot"@)))
        },
        _ => image,
    }
}

/// The images, those from the `from`th on filled with what was captured for each.
pub open spec fn filled_images(
    images: Seq<JsonView>,
    from: int,
    data: spec_fn(int) -> Option<Seq<char>>,
) -> Seq<JsonView> {
    images.map(
        |i: int, image: JsonView|
            if i >= from {
                filled_image(image, data(i))
            } else {
                image
            },
    )
}

/// Filling in, one after the other, the images that a page could not read. The
/// caller sends the wanted command and hands over what it captured.
#[derive(Debug)]
pub struct ImageFill {
    images: Vec<Json>,
    at: usize,
    next_id: u64,
    scale: JsonNumber,
}

impl ImageFill {
    /// The images as they are now.
    pub closed spec fn images(self) -> Seq<JsonView> {
        list_view(self.images@)
    }

    /// The image that a capture is wanted for; the number of images at the end.
    pub closed spec fn at(self) -> int {
        self.at as int
    }

    /// The id of the next command.
    pub closed spec fn id(self) -> u64 {
        self.next_id
    }

    /// How many device pixels a captured CSS pixel has.
    pub closed spec fn scale(self) -> JsonNumber {
        self.scale
    }

    /// Either all images are done, or the current one needs a capture.
    pub closed spec fn wf(self) -> bool {
        &&& 0 <= self.at <= self.images@.len()
        &&& self.at < self.images@.len() ==> clip_of(self.images@[self.at as int]@) is Some
    }

    /// What the images come to in the end, given what is captured for each.
    pub open spec fn outcome(self, data: spec_fn(int) -> Option<Seq<char>>) -> Seq<JsonView> {
        filled_images(self.images(), self.at(), data)
    }

    fn pass_over(&mut self)
        requires
            old(self).at <= old(self).images@.len(),
        ensures
            final(self).wf(),
            final(self).id() == old(self).id(),
            final(self).scale() == old(self).scale(),
            final(self).images() == old(self).images(),
            final(self).at() >= old(self).at(),
            forall|data: spec_fn(int) -> Option<Seq<char>>|
                #[trigger] final(self).outcome(data) == old(self).outcome(data),
    {
        let ghost first = self.at;
        proof {
            list_view_pointwise(self.images@);
        }
        while self.at < self.images.len() && image_clip(&self.images[self.at]).is_none()
            invariant
                first <= self.at <= self.images@.len(),
                self.images@ == old(self).images@,
                self.next_id == old(self).next_id,
                self.scale == old(self).scale,
                forall|k: int| first <= k < self.at ==> clip_of(#[trigger] self.images@[k]@) is None,
            decreases self.images.len() - self.at,
        {
            self.at += 1;
        }
        proof {
            list_view_pointwise(self.images@);
            assert forall|data: spec_fn(int) -> Option<Seq<char>>| #[trigger]
                self.outcome(data) == old(self).outcome(data) by {
                assert forall|k: int| 0 <= k < self.images().len() implies self.outcome(data)[k]
                    == old(self).outcome(data)[k] by {
                    assert(self.images()[k] == self.images@[k]@);
                    if first <= k < self.at {
                        assert(clip_of(self.images@[k]@) is None);
                    }
                }
                assert(self.outcome(data) =~= old(self).outcome(data));
            }
        }
    }

    /// Start with the images of a manifest. `next_id` is the id of the next command.
    pub fn new(manifest: &Json, next_id: u64) -> (r: Self)
        ensures
            r.wf(),
            r.id() == next_id,
            r.scale() == pixel_ratio(manifest@),
            r.images() == manifest_images(manifest@),
            forall|data: spec_fn(int) -> Option<Seq<char>>|
                #[trigger] r.outcome(data) == filled_images(manifest_images(manifest@), 0, data),
    {
        let ratio = number_member(manifest, "dpr", JsonNumber::Double(ONE));
        let scale = if is_at_least_one(ratio) {
            ratio
        } else {
            JsonNumber::Double(ONE)
        };
        let images: Vec<Json> = match manifest.get("images") {
            Some(Json::List(v)) => {
                let mut out: Vec<Json> = Vec::new();
                for i in 0..v.len()
                    invariant
                        out@.len() == i,
                        forall|k: int| 0 <= k < i ==> #[trigger] out@[k]@ == v@[k]@,
                {
                    out.push(v[i].clone());
                }
                proof {
                    list_view_pointwise(out@);
                    list_view_pointwise(v@);
                    assert(list_view(out@) =~= list_view(v@));
                }
                out
            },
            _ => Vec::new(),
        };
        assert(list_view(images@) =~= manifest_images(manifest@));
        let mut fill = ImageFill { images, at: 0, next_id, scale };
        fill.pass_over();
        fill
    }

    /// The capture that is wanted, if any is.
    pub fn wanted(&self) -> (r: Option<CdpCommand>)
        requires
            self.wf(),
        ensures
            match r {
                Some(c) => self.at() < self.images().len() && (clip_of(
                    self.images()[self.at()],
                ) matches Some(clip) && c@ == capture_clip(self.id(), clip, self.scale())),
                None => self.at() == self.images().len(),
            },
    {
        proof {
            list_view_pointwise(self.images@);
        }
        if self.at >= self.images.len() {
            return None;
        }
        match image_clip(&self.images[self.at]) {
            Some(clip) => Some(capture_clip_command(self.next_id, clip, self.scale)),
            None => None,
        }
    }

    /// Take what was captured for the current image: base64 text, or `None` where
    /// the capture failed.
    pub fn supply(&mut self, data: Option<String>)
        requires
            old(self).wf(),
            old(self).at() < old(self).images().len(),
            old(self).id() < u64::MAX,
        ensures
            final(self).wf(),
            final(self).id() == old(self).id() + 1,
            final(self).scale() == old(self).scale(),
            final(self).at() > old(self).at(),
            final(self).images().len() == old(self).images().len(),
            forall|g: spec_fn(int) -> Option<Seq<char>>|
                g(old(self).at()) == opt_view(data)
                    ==> #[trigger] final(self).outcome(g) == old(self).outcome(g),
    {
        let ghost start = *self;
        proof {
            list_view_pointwise(self.images@);
        }
        let at = self.at;
        assert(at < self.images.len());
        let current = self.images[at].clone();
        let filled = match (current, &data) {
            (Json::Object(members), Some(d)) => {
                let mut members = members;
                set_member(&mut members, "base64", text(d.as_str()));
                set_member(&mut members, "mime", text("image/png"));
                set_member(&mut members, "via", text("captureScreenshot"));
                Json::Object(members)
            },
            (other, _) => other,
        };
        assert(filled@ == filled_image(start.images@[at as int]@, opt_view(data)));
        self.images.set(at, filled);
        self.at = at + 1;
        self.next_id = self.next_id + 1;
        proof {
            list_view_pointwise(self.images@);
            assert forall|g: spec_fn(int) -> Option<Seq<char>>|
                g(at as int) == opt_view(data) implies #[trigger] self.outcome(g)
                == start.outcome(g) by {
                assert forall|k: int| 0 <= k < self.images().len() implies self.outcome(g)[k]
                    == start.outcome(g)[k] by {
                    assert(self.images()[k] == self.images@[k]@);
                    assert(start.images()[k] == start.images@[k]@);
                }
                assert(self.outcome(g) =~= start.outcome(g));
            }
        }
        self.pass_over();
    }

    /// The manifest with its images filled in, once no capture is wanted.
    pub fn finish(self, manifest: Json) -> (r: Json)
        requires
            self.wf(),
            self.at() == self.images().len(),
        ensures
            r@ == with_images(manifest@, self.images()),
            forall|g: spec_fn(int) -> Option<Seq<char>>|
                #[trigger] self.outcome(g) == self.images(),
    {
        proof {
            assert forall|g: spec_fn(int) -> Option<Seq<char>>| #[trigger]
                self.outcome(g) == self.images() by {
                assert(self.outcome(g) =~= self.images());
            }
        }
        let listed = match manifest.get("images") {
            Some(Json::List(_)) => true,
            _ => false,
        };
        match manifest {
            Json::Object(members) => {
                let mut members = members;
                if listed {
                    set_member(&mut members, "images", Json::List(self.images));
                }
                Json::Object(members)
            },
            other => other,
        }
    }
}

/// The images that a manifest lists.
pub open spec fn manifest_images(manifest: JsonView) -> Seq<JsonView> {
    match manifest.member("images"@) {
        Some(JsonView::List(images)) => images,
        _ => Seq::empty(),
    }
}

/// The manifest with other images in place of those it lists.
pub open spec fn with_images(manifest: JsonView, images: Seq<JsonView>) -> JsonView {
    match (manifest, manifest.member("images"@)) {
        (JsonView::Object(members), Some(JsonView::List(_))) => JsonView::Object(
            with_member(members, "images"@, JsonView::List(images)),
        ),
        _ => manifest,
    }
}

/// An image that the page could read is never replaced.
pub proof fn readable_image_is_kept(image: JsonView, data: Option<Seq<char>>)
    requires
        image.member_text("base64"@) is Some,
    ensures
        filled_image(image, data) == image,
{
}

// ---------------------------------------------------------------------------
// What the commands ask for
// ---------------------------------------------------------------------------

proof fn mouse_keys_differ()
    ensures
        "type"@ != "x"@,
        "type"@ != "y"@,
        "x"@ != "y"@,
        "type"@ != "button"@,
        "x"@ != "button"@,
        "y"@ != "button"@,
        "type"@ != "buttons"@,
        "x"@ != "buttons"@,
        "y"@ != "buttons"@,
        "button"@ != "buttons"@,
        "type"@ != "clickCount"@,
        "x"@ != "clickCount"@,
        "y"@ != "clickCount"@,
        "button"@ != "clickCount"@,
        "buttons"@ != "clickCount"@,
{
    reveal_strlit("type");
    reveal_strlit("x");
    reveal_strlit("y");
    reveal_strlit("button");
    reveal_strlit("buttons");
    reveal_strlit("clickCount");
    assert("x"@[0] == 'x' && "y"@[0] == 'y');
    assert("type"@.len() == 4 && "x"@.len() == 1 && "button"@.len() == 6 && "buttons"@.len() == 7
        && "clickCount"@.len() == 10);
}

/// An extraction clicks where it is asked to: the button is pressed and then released at
/// that very point of the page, the left one, once.
pub proof fn the_click_is_at_the_point(x: i64, y: i64, script: Seq<char>)
    ensures
        ({
            let press = viewport_commands(x, y, script)[4];
            let release = viewport_commands(x, y, script)[5];
            &&& press.method == "Input.dispatchMouseEvent"@ && release.method
                == "Input.dispatchMouseEvent"@
            &&& press.params.member("type"@) == Some(JsonView::Text("mousePressed"@))
            &&& release.params.member("type"@) == Some(JsonView::Text("mouseReleased"@))
            &&& press.params.member("x"@) == Some(JsonView::Number(JsonNumber::Units(x)))
            &&& press.params.member("y"@) == Some(JsonView::Number(JsonNumber::Units(y)))
            &&& release.params.member("x"@) == Some(JsonView::Number(JsonNumber::Units(x)))
            &&& release.params.member("y"@) == Some(JsonView::Number(JsonNumber::Units(y)))
            &&& press.params.member("button"@) == Some(JsonView::Text("left"@))
            &&& release.params.member("button"@) == Some(JsonView::Text("left"@))
            &&& press.params.member("buttons"@) == Some(JsonView::Number(JsonNumber::Whole(1)))
            &&& release.params.member("buttons"@) == Some(JsonView::Number(JsonNumber::Whole(0)))
            &&& press.params.member("clickCount"@) == Some(JsonView::Number(JsonNumber::Whole(1)))
            &&& release.params.member("clickCount"@) == Some(JsonView::Number(JsonNumber::Whole(1)))
        }),
{
    mouse_keys_differ();
    let press = viewport_commands(x, y, script)[4].params->Object_0;
    let release = viewport_commands(x, y, script)[5].params->Object_0;
    a_member_is_the_first_with_its_key(press, "type"@, 0);
    a_member_is_the_first_with_its_key(press, "x"@, 1);
    a_member_is_the_first_with_its_key(press, "y"@, 2);
    a_member_is_the_first_with_its_key(press, "button"@, 3);
    a_member_is_the_first_with_its_key(press, "buttons"@, 4);
    a_member_is_the_first_with_its_key(press, "clickCount"@, 5);
    a_member_is_the_first_with_its_key(release, "type"@, 0);
    a_member_is_the_first_with_its_key(release, "x"@, 1);
    a_member_is_the_first_with_its_key(release, "y"@, 2);
    a_member_is_the_first_with_its_key(release, "button"@, 3);
    a_member_is_the_first_with_its_key(release, "buttons"@, 4);
    a_member_is_the_first_with_its_key(release, "clickCount"@, 5);
}

proof fn evaluate_keys_differ()
    ensures
        "expression"@ != "awaitPromise"@,
        "expression"@ != "returnByValue"@,
        "awaitPromise"@ != "returnByValue"@,
{
    reveal_strlit("expression");
    reveal_strlit("awaitPromise");
    reveal_strlit("returnByValue");
    assert("expression"@[0] == 'e' && "awaitPromise"@[0] == 'a' && "returnByValue"@[0] == 'r');
}

/// A command evaluates an expression, and gives back its value.
pub open spec fn evaluates(c: CommandView, expression: Seq<char>) -> bool {
    &&& c.method == "Runtime.evaluate"@
    &&& c.params.member("expression"@) == Some(JsonView::Text(expression))
    &&& c.params.member("returnByValue"@) == Some(JsonView::Bool(true))
}

proof fn evaluations_evaluate(id: u64, expression: Seq<char>, wait: bool)
    ensures
        evaluates(evaluate(id, expression), expression),
        evaluate(id, expression).params.member("awaitPromise"@) is None,
        evaluates(evaluate_and_wait(id, expression, wait), expression),
        evaluate_and_wait(id, expression, wait).params.member("awaitPromise"@) == Some(
            JsonView::Bool(wait),
        ),
{
    evaluate_keys_differ();
    let a = evaluate(id, expression).params->Object_0;
    let b = evaluate_and_wait(id, expression, wait).params->Object_0;
    a_member_is_the_first_with_its_key(a, "expression"@, 0);
    a_member_is_the_first_with_its_key(a, "returnByValue"@, 1);
    a_missing_member_is_none(a, "awaitPromise"@);
    a_member_is_the_first_with_its_key(b, "expression"@, 0);
    a_member_is_the_first_with_its_key(b, "awaitPromise"@, 1);
    a_member_is_the_first_with_its_key(b, "returnByValue"@, 2);
}

/// An extraction goes in order: the page is enabled, the script injected and armed, then
/// comes the click, and only then the selection is asked for, and waited for. Each command
/// has an id of its own, by which its reply is known.
pub proof fn an_extraction_goes_in_order(x: i64, y: i64, script: Seq<char>)
    ensures
        ({
            let c = viewport_commands(x, y, script);
            &&& c.len() == 7
            &&& c[0].method == "Runtime.enable"@ && c[1].method == "Page.enable"@
            &&& exists|injected: Seq<char>|
                #[trigger] evaluates(c[2], injected) && occurs(injected, script)
            &&& evaluates(c[3], ARM_JS@)
            &&& c[4].method == "Input.dispatchMouseEvent"@
            &&& c[5].method == "Input.dispatchMouseEvent"@
            &&& evaluates(c[6], EXPORT_JS@)
            &&& c[6].params.member("awaitPromise"@) == Some(JsonView::Bool(true))
            &&& forall|i: int, j: int|
                0 <= i < j < 7 ==> (#[trigger] c[i]).id != (#[trigger] c[j]).id
        }),
{
    broadcast use crate::text::group_parts;

    evaluations_evaluate(3, inject_text(script), false);
    evaluations_evaluate(4, ARM_JS@, false);
    evaluations_evaluate(7, EXPORT_JS@, true);
    assert(occurs(inject_text(script), script));
    assert(evaluates(viewport_commands(x, y, script)[2], inject_text(script)));
}

/// A query enables the page and evaluates the expression that is asked about, and a
/// harvest the harvester, which it waits for; no two commands have one id.
pub proof fn queries_evaluate_what_is_asked(expression: Seq<char>)
    ensures
        query_commands(expression).len() == 2,
        query_commands(expression)[0].method == "Runtime.enable"@,
        evaluates(query_commands(expression)[1], expression),
        query_commands(expression)[0].id != query_commands(expression)[1].id,
        harvest_commands(expression).len() == 3,
        harvest_commands(expression)[0].method == "Runtime.enable"@,
        harvest_commands(expression)[1].method == "Page.enable"@,
        evaluates(harvest_commands(expression)[2], expression),
        harvest_commands(expression)[2].params.member("awaitPromise"@) == Some(
            JsonView::Bool(true),
        ),
        forall|i: int, j: int|
            0 <= i < j < 3 ==> (#[trigger] harvest_commands(expression)[i]).id != (
            #[trigger] harvest_commands(expression)[j]).id,
{
    evaluations_evaluate(2, expression, true);
    evaluations_evaluate(3, expression, true);
}

/// A coordinate with two decimals reads back as the nearest hundredth of a point.
pub proof fn two_decimals_read_back(v: int)
    ensures
        ({
            let s = unsigned(two_decimals(v));
            let size = if v < 0 {
                -v
            } else {
                v
            };
            let n = s.len() as int;
            let hundredths = 100 * read_decimal(s.take(n - 3)) + 10 * digit_value(s[n - 2])
                + digit_value(s[n - 1]);
            &&& v < 0 <==> two_decimals(v)[0] == '-'
            &&& n >= 4
            &&& s[n - 3] == '.'
            &&& is_number(s.take(n - 3))
            &&& '0' <= s[n - 2] <= '9' && '0' <= s[n - 1] <= '9'
            &&& -32 <= 64 * hundredths - 100 * size <= 32
        }),
{
    reveal_strlit(".");
    let m = magnitude(v);
    let k = half_even(100 * m, 64);
    let whole = decimal(k / 100);
    decimal_reads_back(k / 100);
    decimal_is_digits(k / 100);
    decimal_is_nonempty(k / 100);
    let body = whole + "."@ + seq![digit((k / 10 % 10) as int), digit((k % 10) as int)];
    assert(-32 <= 64 * k - 100 * m <= 32);
    assert(k == 100 * (k / 100) + 10 * (k / 10 % 10) + k % 10);
    let s = unsigned(two_decimals(v));
    let n = body.len() as int;
    assert(whole[0] != '-');
    assert(body[0] == whole[0]);
    assert((seq!['-'] + body).skip(1) =~= body);
    assert(s == body);
    assert(s.take(n - 3) =~= whole);
    assert(body[n - 3] == '.');
    assert(body[n - 2] == digit((k / 10 % 10) as int) && body[n - 1] == digit((k % 10) as int));
}

/// A DOM element becomes a node with its own role, name, tag and identifier, in its own
/// place moved by the origin and no further, with its children in their order.
pub proof fn a_dom_node_is_its_element(d: DomNode, ox: i64, oy: i64)
    requires
        in_range(d.x) && in_range(d.y) && in_range(ox) && in_range(oy),
    ensures
        ({
            let n = dom_node_view(d, ox, oy);
            &&& n.bounds matches Some(b) && b.x - ox == d.x && b.y - oy == d.y && b.w == d.w && b.h
                == d.h
            &&& d.role@.len() > 0 ==> n.role == d.role@
            &&& d.role@.len() == 0 ==> n.role == "AXGroup"@
            &&& n.name == d.name@
            &&& d.ident@.len() > 0 ==> n.identifier == Some(d.ident@)
            &&& d.ident@.len() == 0 ==> n.identifier is None
            &&& d.tag@.len() > 0 ==> n.role_description == Some(d.tag@)
            &&& d.tag@.len() == 0 ==> n.role_description is None
            &&& n.truncated == d.truncated
            &&& n.child_source == Some("CDP-DOM"@)
            &&& n.children.len() == d.children@.len()
            &&& forall|i: int|
                0 <= i < d.children@.len() ==> #[trigger] n.children[i] == dom_node_view(
                    d.children@[i],
                    ox,
                    oy,
                )
        }),
{
    dom_views_pointwise(d.children@, ox, oy);
}

proof fn dom_views_pointwise(s: Seq<DomNode>, ox: i64, oy: i64)
    ensures
        dom_node_views(s, ox, oy).len() == s.len(),
        forall|i: int|
            0 <= i < s.len() ==> #[trigger] dom_node_views(s, ox, oy)[i] == dom_node_view(
                s[i],
                ox,
                oy,
            ),
    decreases s.len(),
{
    if s.len() > 0 {
        dom_views_pointwise(s.drop_last(), ox, oy);
        assert forall|i: int| 0 <= i < s.len() implies #[trigger] dom_node_views(s, ox, oy)[i]
            == dom_node_view(s[i], ox, oy) by {
            if i < s.len() - 1 {
                assert(dom_node_views(s.drop_last(), ox, oy)[i] == dom_node_view(
                    s.drop_last()[i],
                    ox,
                    oy,
                ));
            }
        }
    }
}

/// The page lies below the window's bars: as far down as the window is higher than the
/// page, and not at all where it is not, or where the page says nothing.
pub proof fn the_page_lies_below_the_bars(outer: i64, inner: i64)
    ensures
        outer >= inner ==> inner + bars(Some(outer), Some(inner)) == outer,
        outer <= inner ==> bars(Some(outer), Some(inner)) == 0,
        outer >= 0 ==> bars(Some(outer), None) == outer,
        inner >= 0 ==> bars(None, Some(inner)) == 0,
        bars(None, None) == 0,
{
}

/// The pages that can be attached to are exactly the entries of that type with an address,
/// in the order of the list.
pub proof fn pages_are_the_attachable_entries(targets: Seq<PageTarget>)
    ensures
        forall|i: int|
            0 <= i < pages(targets).len() ==> {
                let k = #[trigger] pages(targets)[i];
                0 <= k < targets.len() && targets[k].target_type@ == "page"@ && targets[k].ws_url
                    is Some
            },
        forall|k: int|
            0 <= k < targets.len() && (#[trigger] targets[k]).target_type@ == "page"@
                && targets[k].ws_url is Some ==> pages(targets).contains(k),
        forall|i: int, j: int|
            0 <= i < j < pages(targets).len() ==> #[trigger] pages(targets)[i]
                < #[trigger] pages(targets)[j],
    decreases targets.len(),
{
    if targets.len() > 0 {
        let short = targets.drop_last();
        pages_are_the_attachable_entries(short);
        let (head, all) = (pages(short), pages(targets));
        assert forall|i: int| 0 <= i < all.len() implies {
            let k = #[trigger] all[i];
            0 <= k < targets.len() && targets[k].target_type@ == "page"@ && targets[k].ws_url
                is Some
        } by {
            if i < head.len() {
                assert(all[i] == head[i]);
                assert(short[head[i]] == targets[head[i]]);
            }
        }
        assert forall|k: int|
            0 <= k < targets.len() && (#[trigger] targets[k]).target_type@ == "page"@
                && targets[k].ws_url is Some implies all.contains(k) by {
            if k < short.len() {
                assert(short[k] == targets[k]);
                let i = choose|i: int| 0 <= i < head.len() && head[i] == k;
                assert(all[i] == k);
            } else {
                assert(all[all.len() - 1] == k);
            }
        }
        assert forall|i: int, j: int| 0 <= i < j < all.len() implies #[trigger] all[i]
            < #[trigger] all[j] by {
            assert(all[i] == head[i]);
            if j < head.len() {
                assert(all[j] == head[j]);
            }
        }
    }
}

proof fn clip_keys_differ()
    ensures
        "x"@ != "y"@,
        "x"@ != "width"@,
        "y"@ != "width"@,
        "x"@ != "height"@,
        "y"@ != "height"@,
        "width"@ != "height"@,
        "x"@ != "scale"@,
        "y"@ != "scale"@,
        "width"@ != "scale"@,
        "height"@ != "scale"@,
        "clip"@ != "format"@,
        "clip"@ != "captureBeyondViewport"@,
        "clip"@ != "fromSurface"@,
{
    reveal_strlit("x");
    reveal_strlit("y");
    reveal_strlit("width");
    reveal_strlit("height");
    reveal_strlit("scale");
    reveal_strlit("clip");
    reveal_strlit("format");
    reveal_strlit("captureBeyondViewport");
    reveal_strlit("fromSurface");
    assert("x"@[0] == 'x' && "y"@[0] == 'y' && "width"@[0] == 'w' && "height"@[0] == 'h'
        && "scale"@[0] == 's');
    assert("clip"@.len() == 4 && "format"@.len() == 6 && "captureBeyondViewport"@.len() == 21
        && "fromSurface"@.len() == 11);
}

/// An image that the page could not read is captured in its own rectangle, at the page's
/// own scale: each side of the clip is the side of the rectangle.
pub proof fn a_capture_is_of_the_rectangle(id: u64, clip: Clip, scale: JsonNumber)
    ensures
        ({
            let c = capture_clip(id, clip, scale);
            &&& c.id == id
            &&& c.method == "Page.captureScreenshot"@
            &&& c.params.member("clip"@) matches Some(area) && {
                &&& area.member("x"@) == Some(JsonView::Number(clip.x))
                &&& area.member("y"@) == Some(JsonView::Number(clip.y))
                &&& area.member("width"@) == Some(JsonView::Number(clip.w))
                &&& area.member("height"@) == Some(JsonView::Number(clip.h))
                &&& area.member("scale"@) == Some(JsonView::Number(scale))
            }
        }),
{
    clip_keys_differ();
    let params = capture_clip(id, clip, scale).params->Object_0;
    a_member_is_the_first_with_its_key(params, "clip"@, 3);
    let area = params[3].1->Object_0;
    a_member_is_the_first_with_its_key(area, "x"@, 0);
    a_member_is_the_first_with_its_key(area, "y"@, 1);
    a_member_is_the_first_with_its_key(area, "width"@, 2);
    a_member_is_the_first_with_its_key(area, "height"@, 3);
    a_member_is_the_first_with_its_key(area, "scale"@, 4);
}

/// The clip of an image is the rectangle that the page gives for it, side by side; an
/// image with bytes, or under one pixel in either direction, has none.
pub proof fn a_clip_is_the_images_rectangle(image: JsonView)
    ensures
        image.member_text("base64"@) is Some ==> clip_of(image) is None,
        image.member("rect"@) is None ==> clip_of(image) is None,
        clip_of(image) matches Some(c) ==> {
            let rect = image.member("rect"@)->0;
            &&& rect.member("x"@) matches Some(JsonView::Number(n)) ==> c.x == as_double(n)
            &&& rect.member("y"@) matches Some(JsonView::Number(n)) ==> c.y == as_double(n)
            &&& rect.member("w"@) matches Some(JsonView::Number(n)) ==> c.w == as_double(n)
            &&& rect.member("h"@) matches Some(JsonView::Number(n)) ==> c.h == as_double(n)
            &&& rect.member("w"@) is Some && rect.member("h"@) is Some
        },
{
    assert(!at_least_one(JsonNumber::Double(ZERO)));
}

proof fn with_member_sets(members: Seq<(Seq<char>, JsonView)>, key: Seq<char>, value: JsonView)
    ensures
        JsonView::Object(with_member(members, key, value)).member(key) == Some(value),
        forall|other: Seq<char>|
            other != key ==> #[trigger] JsonView::Object(with_member(members, key, value)).member(
                other,
            ) == JsonView::Object(members).member(other),
{
    let all = with_member(members, key, value);
    a_place_is_where_the_key_is(members, key);
    match place_of(members, key, 0) {
        Some(k) => {
            assert forall|j: int| 0 <= j < k implies (#[trigger] all[j]).0 != key by {
                assert(members[j].0 != key);
            }
            a_member_is_the_first_with_its_key(all, key, k);
        },
        None => {
            assert forall|j: int| 0 <= j < members.len() implies (#[trigger] all[j]).0 != key by {
                assert(members[j].0 != key);
            }
            a_member_is_the_first_with_its_key(all, key, members.len() as int);
        },
    }
    assert forall|other: Seq<char>| other != key implies #[trigger] JsonView::Object(all).member(
        other,
    ) == JsonView::Object(members).member(other) by {
        a_place_is_where_the_key_is(members, other);
        match place_of(members, other, 0) {
            Some(k) => {
                assert(all[k] == members[k]);
                assert forall|j: int| 0 <= j < k implies (#[trigger] all[j]).0 != other by {
                    assert(members[j].0 != other);
                }
                a_member_is_the_first_with_its_key(all, other, k);
            },
            None => {
                assert forall|j: int| 0 <= j < all.len() implies (#[trigger] all[j]).0 != other by {
                    if j < members.len() {
                        assert(members[j].0 != other);
                    }
                }
                a_missing_member_is_none(all, other);
            },
        }
    }
}

/// An image that was captured holds what was captured, as a PNG, and says so; whatever
/// else the page told of it stays.
pub proof fn a_captured_image_holds_the_capture(image: JsonView, data: Seq<char>, key: Seq<char>)
    requires
        clip_of(image) is Some,
        image is Object,
    ensures
        ({
            let filled = filled_image(image, Some(data));
            &&& filled.member("base64"@) == Some(JsonView::Text(data))
            &&& filled.member("mime"@) == Some(JsonView::Text("image/png"@))
            &&& filled.member("via"@) == Some(JsonView::Text("captureScreenshot"@))
            &&& key != "base64"@ && key != "mime"@ && key != "via"@ ==> filled.member(key)
                == image.member(key)
            &&& filled_image(image, None) == image
        }),
{
    reveal_strlit("base64");
    reveal_strlit("mime");
    reveal_strlit("via");
    assert("base64"@.len() == 6 && "mime"@.len() == 4 && "via"@.len() == 3);
    let members = image->Object_0;
    with_member_sets(members, "base64"@, JsonView::Text(data));
    let a = with_member(members, "base64"@, JsonView::Text(data));
    with_member_sets(a, "mime"@, JsonView::Text("image/png"@));
    let b = with_member(a, "mime"@, JsonView::Text("image/png"@));
    with_member_sets(b, "via"@, JsonView::Text("captureScreenshot"@));
}

/// A reply is known by its number alone: no message replies to two commands, and one
/// without a number replies to none.
pub proof fn a_reply_goes_by_its_number(v: JsonView, id: u64, other: u64)
    ensures
        v.member("id"@) == Some(JsonView::Number(JsonNumber::Whole(id))) ==> is_reply(v, id),
        is_reply(v, id) && is_reply(v, other) ==> id == other,
        v.member("id"@) is None ==> !is_reply(v, id),
{
}

/// The value of an evaluation is the value in its result; without either there is none. A
/// text that is not there reads as none, and a member that is not there as null.
pub proof fn values_are_read_where_they_stand(
    reply: JsonView,
    result: JsonView,
    value: JsonView,
    key: Seq<char>,
    t: Seq<char>,
)
    ensures
        reply.member("result"@) == Some(result) && result.member("value"@) == Some(value)
            ==> value_of(reply) == Some(value),
        reply.member("result"@) is None ==> value_of(reply) is None,
        reply.member("result"@) == Some(result) && result.member("value"@) is None ==> value_of(
            reply,
        ) is None,
        value.member(key) == Some(JsonView::Text(t)) ==> text_or_empty(value, key) == t,
        value.member(key) is None ==> text_or_empty(value, key).len() == 0,
        value.member(key) == Some(result) ==> member_or_null(value, key) == result,
        value.member(key) is None ==> member_or_null(value, key) == JsonView::Null,
{
}

/// A captured pixel stands for what the page says, but never for more than one of its own:
/// the ratio is that of the page where it is one or more, and one where it is less or not
/// told.
pub proof fn the_pixel_ratio_is_at_least_one(manifest: JsonView, k: u64, u: i64)
    ensures
        at_least_one(pixel_ratio(manifest)),
        manifest.member("dpr"@) is None ==> pixel_ratio(manifest) == JsonNumber::Double(ONE),
        manifest.member("dpr"@) matches Some(JsonView::Number(n)) ==> at_least_one(as_double(n))
            ==> pixel_ratio(manifest) == as_double(n),
        manifest.member("dpr"@) matches Some(JsonView::Number(n)) ==> !at_least_one(as_double(n))
            ==> pixel_ratio(manifest) == JsonNumber::Double(ONE),
        at_least_one(JsonNumber::Whole(k)) <==> k > 0,
        at_least_one(JsonNumber::Units(u)) <==> u >= 64,
        !at_least_one(JsonNumber::Double(ZERO)),
{
}

/// A manifest with other images lists just those, and all else that it tells stays; one
/// that lists none stays as it is.
pub proof fn a_manifest_takes_other_images(
    manifest: JsonView,
    images: Seq<JsonView>,
    l: Seq<JsonView>,
    key: Seq<char>,
)
    requires
        manifest is Object,
    ensures
        manifest.member("images"@) == Some(JsonView::List(l)) ==> {
            &&& manifest_images(manifest) == l
            &&& manifest_images(with_images(manifest, images)) == images
            &&& key != "images"@ ==> with_images(manifest, images).member(key) == manifest.member(
                key,
            )
        },
        manifest.member("images"@) is None ==> with_images(manifest, images) == manifest
            && manifest_images(manifest).len() == 0,
{
    with_member_sets(manifest->Object_0, "images"@, JsonView::List(images));
}

/// Each image is filled with what was captured for it and for no other.
pub proof fn each_image_is_filled_with_its_own(
    images: Seq<JsonView>,
    data: spec_fn(int) -> Option<Seq<char>>,
    i: int,
)
    requires
        0 <= i < images.len(),
    ensures
        filled_images(images, 0, data).len() == images.len(),
        filled_images(images, 0, data)[i] == filled_image(images[i], data(i)),
        filled_images(images, images.len() as int, data)[i] == images[i],
{
}

/// A text holds no placeholder, nor a part of one.
pub open spec fn plain(s: Seq<char>) -> bool {
    forall|k: int| 0 <= k < s.len() ==> #[trigger] s[k] != '_'
}

proof fn plain_parts(a: Seq<char>, b: Seq<char>)
    requires
        plain(a),
        plain(b),
    ensures
        plain(a + b),
{
    assert forall|k: int| 0 <= k < (a + b).len() implies #[trigger] (a + b)[k] != '_' by {
        if k >= a.len() {
            assert(b[k - a.len()] == (a + b)[k]);
        } else {
            assert(a[k] == (a + b)[k]);
        }
    }
}

proof fn decimal_is_plain(n: nat)
    ensures
        plain(decimal(n)),
{
    decimal_is_digits(n);
}

proof fn two_decimals_are_plain(v: int)
    ensures
        plain(two_decimals(v)),
{
    let n = half_even(100 * magnitude(v), 64);
    let tail = seq![digit((n / 10 % 10) as int), digit((n % 10) as int)];
    reveal_strlit(".");
    decimal_is_plain(n / 100);
    assert(plain("."@));
    assert(plain(tail));
    plain_parts(decimal(n / 100), "."@);
    plain_parts(decimal(n / 100) + "."@, tail);
    assert(plain(seq!['-']));
    plain_parts(seq!['-'], decimal(n / 100) + "."@ + tail);
}

/// What follows a placeholder in a script: whatever in it begins like a placeholder is
/// another one.
spec fn goes_on(after: Seq<char>, pat: Seq<char>) -> bool {
    forall|k: int|
        0 <= k < after.len() && #[trigger] after[k] == '_' ==> k + 2 < after.len() && (after[k + 1]
            != '_' || after[k + 2] != pat[2])
}

proof fn goes_on_over(a: Seq<char>, other: Seq<char>, b: Seq<char>, pat: Seq<char>)
    requires
        plain(a),
        other.len() > 4,
        other[0] == '_' && other[1] == '_' && other[2] != '_' && other[2] != pat[2],
        other[other.len() - 2] == '_' && other[other.len() - 1] == '_',
        forall|k: int| 2 <= k < other.len() - 2 ==> #[trigger] other[k] != '_',
        b.len() > 1,
        b[0] != '_' && b[1] != '_' && b[0] != pat[2],
        pat[2] != '_',
        goes_on(b, pat),
    ensures
        goes_on(a + other + b, pat),
{
    let all = a + other + b;
    let (i, j) = (a.len() as int, (a.len() + other.len()) as int);
    assert forall|k: int| 0 <= k < all.len() && #[trigger] all[k] == '_' implies k + 2 < all.len()
        && (all[k + 1] != '_' || all[k + 2] != pat[2]) by {
        if k < i {
            assert(a[k] == all[k]);
        } else if k < j {
            let m = k - i;
            assert(all[k] == other[m]);
            if 2 <= m < other.len() - 2 {
                assert(other[m] != '_');
            }
            if m == 0 {
                assert(all[k + 2] == other[2]);
            } else if m == 1 {
                assert(all[k + 1] == other[2]);
            } else if m == other.len() - 2 {
                assert(all[k + 2] == b[0]);
            } else {
                assert(all[k + 1] == b[0]);
            }
        } else {
            let m = k - j;
            assert(all[k] == b[m]);
            assert(b[m] == '_');
            assert(all[k + 1] == b[m + 1] && all[k + 2] == b[m + 2]);
        }
    }
}

proof fn filled_where_it_stands(
    text: Seq<char>,
    before: Seq<char>,
    pat: Seq<char>,
    after: Seq<char>,
    rep: Seq<char>,
)
    requires
        begins(text, before + pat + after),
        pat.len() > 2,
        pat[0] == '_' && pat[1] == '_',
        plain(before),
        goes_on(after, pat),
    ensures
        begins(replaced(text, pat, rep, 0), before + rep + after),
{
    let head = before + pat + after;
    let i = before.len() as int;
    let f = i + pat.len();
    let g = f + after.len();
    assert forall|k: int| 0 <= k < head.len() implies text[k] == #[trigger] head[k] by {
        assert(text.subrange(0, head.len() as int)[k] == head[k]);
    }
    assert(text.subrange(i, f) =~= pat) by {
        assert forall|k: int| 0 <= k < pat.len() implies text[i + k] == pat[k] by {
            assert(head[i + k] == pat[k]);
        }
    }
    assert(occurs_at(text, pat, i));
    assert forall|k: int| 0 <= k < i implies !occurs_at(text, pat, k) by {
        assert(head[k] == before[k]);
        if occurs_at(text, pat, k) {
            assert(text.subrange(k, k + pat.len())[0] == pat[0]);
        }
    }
    index_from_is_first(text, pat, 0);
    assert(index_from(text, pat, 0) == Some(i)) by {
        match index_from(text, pat, 0) {
            None => {
                assert(!occurs_at(text, pat, i));
            },
            Some(k) => {
                if k > i {
                    assert(!occurs_at(text, pat, i));
                }
            },
        }
    }
    assert forall|k: int| f <= k < g implies !occurs_at(text, pat, k) by {
        let m = k - f;
        assert(head[k] == after[m]);
        if occurs_at(text, pat, k) {
            let here = text.subrange(k, k + pat.len());
            assert(here[0] == pat[0] && here[1] == pat[1] && here[2] == pat[2]);
            assert(after[m] == '_');
            assert(head[k + 1] == after[m + 1] && head[k + 2] == after[m + 2]);
        }
    }
    index_from_is_first(text, pat, f);
    let rest = replaced(text, pat, rep, f);
    assert(begins(rest, after)) by {
        match index_from(text, pat, f) {
            None => {
                assert(rest.subrange(0, after.len() as int) =~= after) by {
                    assert forall|k: int| 0 <= k < after.len() implies rest[k] == after[k] by {
                        assert(head[f + k] == after[k]);
                    }
                }
            },
            Some(j) => {
                assert(j >= g);
                assert(rest.subrange(0, after.len() as int) =~= after) by {
                    assert forall|k: int| 0 <= k < after.len() implies rest[k] == after[k] by {
                        assert(text.subrange(f, j)[k] == text[f + k]);
                        assert(head[f + k] == after[k]);
                    }
                }
            },
        }
    }
    assert(text.subrange(0, i) =~= before) by {
        assert forall|k: int| 0 <= k < i implies text[k] == before[k] by {
            assert(head[k] == before[k]);
        }
    }
    let all = before + rep + rest;
    let wanted = before + rep + after;
    assert(all.subrange(0, wanted.len() as int) =~= wanted) by {
        assert forall|k: int| 0 <= k < wanted.len() implies all[k] == wanted[k] by {
            if k >= before.len() + rep.len() {
                let m = k - before.len() - rep.len();
                assert(rest.subrange(0, after.len() as int)[m] == after[m]);
            }
        }
    }
}

proof fn placeholders_differ()
    ensures
        "__X__"@.len() == 5 && "__Y__"@.len() == 5 && "__WIDEN__"@.len() == 9 && "__MAXD__"@.len()
            == 8 && "__BUDGET__"@.len() == 10,
        "__X__"@[0] == '_' && "__X__"@[1] == '_' && "__X__"@[2] == 'X' && "__X__"@[3] == '_'
            && "__X__"@[4] == '_',
        "__Y__"@[0] == '_' && "__Y__"@[1] == '_' && "__Y__"@[2] == 'Y' && "__Y__"@[3] == '_'
            && "__Y__"@[4] == '_',
        "__WIDEN__"@[0] == '_' && "__WIDEN__"@[1] == '_' && "__WIDEN__"@[2] == 'W'
            && "__WIDEN__"@[7] == '_' && "__WIDEN__"@[8] == '_',
        "__MAXD__"@[0] == '_' && "__MAXD__"@[1] == '_' && "__MAXD__"@[2] == 'M' && "__MAXD__"@[6]
            == '_' && "__MAXD__"@[7] == '_',
        "__BUDGET__"@[0] == '_' && "__BUDGET__"@[1] == '_' && "__BUDGET__"@[2] == 'B'
            && "__BUDGET__"@[8] == '_' && "__BUDGET__"@[9] == '_',
        forall|k: int| 2 <= k < 3 ==> #[trigger] "__X__"@[k] != '_',
        forall|k: int| 2 <= k < 3 ==> #[trigger] "__Y__"@[k] != '_',
        forall|k: int| 2 <= k < 7 ==> #[trigger] "__WIDEN__"@[k] != '_',
        forall|k: int| 2 <= k < 6 ==> #[trigger] "__MAXD__"@[k] != '_',
        forall|k: int| 2 <= k < 8 ==> #[trigger] "__BUDGET__"@[k] != '_',
{
    reveal_strlit("__X__");
    reveal_strlit("__Y__");
    reveal_strlit("__WIDEN__");
    reveal_strlit("__MAXD__");
    reveal_strlit("__BUDGET__");
    let (w, m, b) = ("__WIDEN__"@, "__MAXD__"@, "__BUDGET__"@);
    assert forall|k: int| 2 <= k < 7 implies #[trigger] w[k] != '_' by {
        assert(k == 2 || k == 3 || k == 4 || k == 5 || k == 6);
    }
    assert forall|k: int| 2 <= k < 6 implies #[trigger] m[k] != '_' by {
        assert(k == 2 || k == 3 || k == 4 || k == 5);
    }
    assert forall|k: int| 2 <= k < 8 implies #[trigger] b[k] != '_' by {
        assert(k == 2 || k == 3 || k == 4 || k == 5 || k == 6 || k == 7);
    }
}

proof fn regrouped(a: Seq<char>, b: Seq<char>, c: Seq<char>, d: Seq<char>, e: Seq<char>)
    ensures
        a + b + (c + d + e) == (a + b + c) + d + e,
{
    assert(a + b + (c + d + e) =~= (a + b + c) + d + e);
}

/// The probe is sent for the point: where its script first gives `x`, `y` and `widen`, it
/// gives the point's own, each in its place.
pub proof fn the_probe_is_for_the_point(x: i64, y: i64, widen: nat, head: Seq<char>)
    requires
        plain(head),
        begins(
            PROBE_JS@,
            head + "__X__"@ + (", y="@ + "__Y__"@ + (", widen="@ + "__WIDEN__"@ + ";\n"@)),
        ),
    ensures
        begins(
            probe_text(x, y, widen),
            head + two_decimals(x as int) + ", y="@ + two_decimals(y as int) + ", widen="@
                + decimal(widen) + ";\n"@,
        ),
{
    placeholders_differ();
    reveal_strlit(", y=");
    reveal_strlit(", widen=");
    reveal_strlit(";\n");
    let (px, py, pw) = ("__X__"@, "__Y__"@, "__WIDEN__"@);
    let (b, c, d) = (", y="@, ", widen="@, ";\n"@);
    let (tx, ty, tw) = (two_decimals(x as int), two_decimals(y as int), decimal(widen));
    assert(plain(b) && plain(c) && plain(d));
    two_decimals_are_plain(x as int);
    two_decimals_are_plain(y as int);
    let after_y = c + pw + d;
    goes_on_over(c, pw, d, px);
    goes_on_over(c, pw, d, py);
    goes_on_over(b, py, after_y, px);
    filled_where_it_stands(PROBE_JS@, head, px, b + py + after_y, tx);
    let t1 = replaced(PROBE_JS@, px, tx, 0);
    regrouped(head, tx, b, py, after_y);
    let h1 = head + tx + b;
    plain_parts(head, tx);
    plain_parts(head + tx, b);
    filled_where_it_stands(t1, h1, py, after_y, ty);
    let t2 = replaced(t1, py, ty, 0);
    regrouped(h1, ty, c, pw, d);
    let h2 = h1 + ty + c;
    plain_parts(h1, ty);
    plain_parts(h1 + ty, c);
    filled_where_it_stands(t2, h2, pw, d, tw);
}

/// The DOM walker is sent for the point: where its script first gives `x`, `y`, the depth
/// and the number of nodes, it gives those that were asked for, each in its place.
pub proof fn the_walker_is_for_the_point(
    x: i64,
    y: i64,
    max_depth: nat,
    max_nodes: nat,
    head: Seq<char>,
)
    requires
        plain(head),
        begins(
            DOM_TREE_JS@,
            head + "__X__"@ + (", y="@ + "__Y__"@ + (", MAXD="@ + "__MAXD__"@ + (", BUDGET="@
                + "__BUDGET__"@ + ", count=0;"@))),
        ),
    ensures
        begins(
            dom_tree_text(x, y, max_depth, max_nodes),
            head + two_decimals(x as int) + ", y="@ + two_decimals(y as int) + ", MAXD="@ + decimal(
                max_depth,
            ) + ", BUDGET="@ + decimal(max_nodes) + ", count=0;"@,
        ),
{
    placeholders_differ();
    reveal_strlit(", y=");
    reveal_strlit(", MAXD=");
    reveal_strlit(", BUDGET=");
    reveal_strlit(", count=0;");
    let (px, py, pm, pb) = ("__X__"@, "__Y__"@, "__MAXD__"@, "__BUDGET__"@);
    let (b, c, d, e) = (", y="@, ", MAXD="@, ", BUDGET="@, ", count=0;"@);
    let (tx, ty) = (two_decimals(x as int), two_decimals(y as int));
    let (tm, tb) = (decimal(max_depth), decimal(max_nodes));
    assert(plain(b) && plain(c) && plain(d) && plain(e));
    two_decimals_are_plain(x as int);
    two_decimals_are_plain(y as int);
    decimal_is_plain(max_depth);
    let after_m = d + pb + e;
    let after_y = c + pm + after_m;
    goes_on_over(d, pb, e, px);
    goes_on_over(d, pb, e, py);
    goes_on_over(d, pb, e, pm);
    goes_on_over(c, pm, after_m, px);
    goes_on_over(c, pm, after_m, py);
    goes_on_over(b, py, after_y, px);
    filled_where_it_stands(DOM_TREE_JS@, head, px, b + py + after_y, tx);
    let t1 = replaced(DOM_TREE_JS@, px, tx, 0);
    regrouped(head, tx, b, py, after_y);
    let h1 = head + tx + b;
    plain_parts(head, tx);
    plain_parts(head + tx, b);
    filled_where_it_stands(t1, h1, py, after_y, ty);
    let t2 = replaced(t1, py, ty, 0);
    regrouped(h1, ty, c, pm, after_m);
    let h2 = h1 + ty + c;
    plain_parts(h1, ty);
    plain_parts(h1 + ty, c);
    filled_where_it_stands(t2, h2, pm, after_m, tm);
    let t3 = replaced(t2, pm, tm, 0);
    regrouped(h2, tm, d, pb, e);
    let h3 = h2 + tm + d;
    plain_parts(h2, tm);
    plain_parts(h2 + tm, d);
    filled_where_it_stands(t3, h3, pb, e, tb);
}

/// Of the ports that answered none is below the one that is used, which answered itself.
pub proof fn no_lower_port_answered(answers: Seq<Option<u16>>, p: u16, i: int)
    requires
        lowest(answers, p),
        0 <= i < answers.len(),
    ensures
        answers[i] matches Some(q) ==> p <= q,
        exists|k: int| 0 <= k < answers.len() && #[trigger] answers[k] == Some(p),
{
}

} // verus!
