//! Driving the browser panel: which element an action targets, the script
//! or native input each action becomes, and the texts reported back to the
//! agent (the page snapshot, the outcome of a navigation or an action).
//! Running scripts and native input in the panel is the caller's.
use vstd::prelude::*;

use crate::support::json::{json_get, json_parse, json_text, json_to_string, parse_json, str_value, Json};
use crate::support::num::{nat_text, usize_text};
use crate::text::{has_prefix, chars_of, eq_str, extend_str, extend_vec, is_ascii_digit, is_blank_vec, is_digit, owned, string_of, trim, trim_vec};

verus! {

/// The selector of the element numbered `k` by the last snapshot.
pub open spec fn selector_of(k: Seq<char>) -> Seq<char> {
    "[data-cyan-k=\""@ + k + "\"]"@
}

/// The selector of element `k`; `k` must be all digits (the number a
/// snapshot gave).
pub fn element_selector(k: &str) -> (r: Result<String, String>)
    ensures
        (forall|i: int| 0 <= i < k@.len() ==> is_digit(#[trigger] k@[i])) ==> (r matches Ok(s) && s@ == selector_of(k@)),
        !(forall|i: int| 0 <= i < k@.len() ==> is_digit(#[trigger] k@[i])) ==> (r matches Err(m)
            && m@ == "k 必须是 BrowserSnapshot 返回的编号"@),
{
    let v = chars_of(k);
    for i in 0..v.len()
        invariant
            v@ == k@,
            forall|j: int| 0 <= j < i ==> is_digit(#[trigger] k@[j]),
    {
        if !is_ascii_digit(v[i]) {
            return Err(owned("k 必须是 BrowserSnapshot 返回的编号"));
        }
    }
    let mut s = chars_of("[data-cyan-k=\"");
    extend_str(&mut s, k);
    extend_str(&mut s, "\"]");
    Ok(string_of(&s))
}

/// Whether an action first checks that its element exists (all but a
/// native key press, which targets no element).
pub fn checks_element(action_kind: &str) -> (r: bool)
    ensures
        r == (action_kind@ != "real_key"@),
{
    !eq_str(&chars_of(action_kind), "real_key")
}

/// A JSON string literal of `s`, as `serde_json` writes it.
fn quoted(s: &String) -> (r: String)
    ensures
        r@ == json_text(Json::Str(*s)),
{
    let j = Json::Str(s.clone());
    json_to_string(&j)
}

/// The script that tells whether the element exists.
pub fn exists_script(selector: &String) -> (r: String)
    ensures
        r@ == "!!document.querySelector("@ + json_text(Json::Str(*selector)) + ")"@,
{
    let mut v = chars_of("!!document.querySelector(");
    extend_str(&mut v, quoted(selector).as_str());
    extend_str(&mut v, ")");
    string_of(&v)
}

/// The message for an element the page no longer has.
pub fn missing_element(k: &str) -> (r: String)
    ensures
        r@ == "元素 ["@ + k@ + "] 不存在，页面可能已变化，请先 BrowserSnapshot 重新获取"@,
{
    let mut v = chars_of("元素 [");
    extend_str(&mut v, k);
    extend_str(&mut v, "] 不存在，页面可能已变化，请先 BrowserSnapshot 重新获取");
    string_of(&v)
}

/// What an action does in the panel.
#[derive(Debug)]
pub enum BrowserStep {
    /// Run a script without reading a result back (so that a navigation it
    /// starts is not cancelled).
    Fire(String),
    /// A native click at the element's centre.
    RealClick,
    /// A native click, select all, backspace, then the text typed natively.
    RealType(String),
    /// A native key press of the named key.
    RealKey(String),
}

/// The script of a synthetic action on the element found by `q` (the
/// selector as a JSON string literal).
pub open spec fn action_script(kind: Seq<char>, q: Seq<char>, t: Seq<char>) -> Seq<char> {
    if kind == "click"@ {
        "(function(){var el=document.querySelector("@ + q + "); el.click(); return true;})()"@
    } else if kind == "type"@ || kind == "clear_and_type"@ {
        "(function(){var el=document.querySelector("@ + q + "); "@
            + (if kind == "clear_and_type"@ { "el.value='';"@ } else { Seq::empty() })
            + " el.value="@ + t
            + "; el.dispatchEvent(new Event('input',{bubbles:true})); el.dispatchEvent(new Event('change',{bubbles:true})); return true;})()"@
    } else if kind == "press_enter"@ {
        "(function(){var el=document.querySelector("@ + q
            + "); el.dispatchEvent(new KeyboardEvent('keydown',{key:'Enter',code:'Enter',keyCode:13,which:13,bubbles:true})); var form=el.closest('form'); if(form) form.requestSubmit ? form.requestSubmit() : form.submit(); else el.click(); return true;})()"@
    } else {
        "(function(){var el=document.querySelector("@ + q
            + "); el.scrollIntoView({behavior:'instant',block:'center'}); return true;})()"@
    }
}

/// The actions there are.
pub open spec fn known_action(kind: Seq<char>) -> bool {
    kind == "click"@ || kind == "real_click"@ || kind == "real_type"@ || kind == "real_key"@ || kind == "type"@
        || kind == "clear_and_type"@ || kind == "press_enter"@ || kind == "scroll_into"@
}

/// What action `action_kind` does to the element found by `selector`:
/// `click`, `type`, `clear_and_type`, `press_enter` and `scroll_into` run a
/// script (see [`action_script`]); `real_click`, `real_type` and `real_key`
/// use native input. The typing actions and `real_key` need a text.
pub fn action_step(action_kind: &str, selector: &String, text: Option<String>) -> (r: Result<BrowserStep, String>)
    ensures
        !known_action(action_kind@) ==> (r matches Err(m) && m@ == "未知动作："@ + action_kind@
            + "（支持 click/real_click/real_type/real_key/type/clear_and_type/press_enter/scroll_into）"@),
        action_kind@ == "real_click"@ ==> r matches Ok(BrowserStep::RealClick),
        action_kind@ == "real_type"@ ==> match text {
            Some(t) => r matches Ok(BrowserStep::RealType(x)) && x == t,
            None => r matches Err(m) && m@ == "real_type 动作需要 text 参数"@,
        },
        action_kind@ == "real_key"@ ==> match text {
            Some(t) => r matches Ok(BrowserStep::RealKey(x)) && x == t,
            None => r matches Err(m) && m@ == "real_key 动作需要 text 参数（enter/tab/escape/backspace/left/right/up/down）"@,
        },
        (action_kind@ == "type"@ || action_kind@ == "clear_and_type"@) ==> match text {
            Some(t) => r matches Ok(BrowserStep::Fire(s)) && s@ == action_script(
                action_kind@,
                json_text(Json::Str(*selector)),
                json_text(Json::Str(t)),
            ),
            None => r matches Err(m) && m@ == "type 动作需要 text 参数"@,
        },
        (action_kind@ == "click"@ || action_kind@ == "press_enter"@ || action_kind@ == "scroll_into"@)
            ==> (r matches Ok(BrowserStep::Fire(s))
            && s@ == action_script(action_kind@, json_text(Json::Str(*selector)), Seq::empty())),
{
    proof {
        reveal_strlit("click");
        reveal_strlit("real_click");
        reveal_strlit("real_type");
        reveal_strlit("real_key");
        reveal_strlit("type");
        reveal_strlit("clear_and_type");
        reveal_strlit("press_enter");
        reveal_strlit("scroll_into");
        assert("click"@.len() == 5);
        assert("real_click"@.len() == 10);
        assert("real_type"@.len() == 9);
        assert("real_key"@.len() == 8);
        assert("type"@.len() == 4);
        assert("clear_and_type"@.len() == 14);
        assert("press_enter"@.len() == 11 && "press_enter"@[0] == 'p');
        assert("scroll_into"@.len() == 11 && "scroll_into"@[0] == 's');
    }
    let kind = chars_of(action_kind);
    if eq_str(&kind, "click") {
        let mut v = chars_of("(function(){var el=document.querySelector(");
        extend_str(&mut v, quoted(selector).as_str());
        extend_str(&mut v, "); el.click(); return true;})()");
        Ok(BrowserStep::Fire(string_of(&v)))
    } else if eq_str(&kind, "real_click") {
        Ok(BrowserStep::RealClick)
    } else if eq_str(&kind, "real_type") {
        match text {
            Some(t) => Ok(BrowserStep::RealType(t)),
            None => Err(owned("real_type 动作需要 text 参数")),
        }
    } else if eq_str(&kind, "real_key") {
        match text {
            Some(t) => Ok(BrowserStep::RealKey(t)),
            None => Err(owned("real_key 动作需要 text 参数（enter/tab/escape/backspace/left/right/up/down）")),
        }
    } else if eq_str(&kind, "type") || eq_str(&kind, "clear_and_type") {
        match text {
            Some(t) => {
                let mut v = chars_of("(function(){var el=document.querySelector(");
                extend_str(&mut v, quoted(selector).as_str());
                extend_str(&mut v, "); ");
                if eq_str(&kind, "clear_and_type") {
                    extend_str(&mut v, "el.value='';");
                } else {
                    assert(v@ + Seq::<char>::empty() =~= v@);
                }
                extend_str(&mut v, " el.value=");
                extend_str(&mut v, quoted(&t).as_str());
                extend_str(
                    &mut v,
                    "; el.dispatchEvent(new Event('input',{bubbles:true})); el.dispatchEvent(new Event('change',{bubbles:true})); return true;})()",
                );
                Ok(BrowserStep::Fire(string_of(&v)))
            },
            None => Err(owned("type 动作需要 text 参数")),
        }
    } else if eq_str(&kind, "press_enter") {
        let mut v = chars_of("(function(){var el=document.querySelector(");
        extend_str(&mut v, quoted(selector).as_str());
        extend_str(
            &mut v,
            "); el.dispatchEvent(new KeyboardEvent('keydown',{key:'Enter',code:'Enter',keyCode:13,which:13,bubbles:true})); var form=el.closest('form'); if(form) form.requestSubmit ? form.requestSubmit() : form.submit(); else el.click(); return true;})()",
        );
        Ok(BrowserStep::Fire(string_of(&v)))
    } else if eq_str(&kind, "scroll_into") {
        let mut v = chars_of("(function(){var el=document.querySelector(");
        extend_str(&mut v, quoted(selector).as_str());
        extend_str(&mut v, "); el.scrollIntoView({behavior:'instant',block:'center'}); return true;})()");
        Ok(BrowserStep::Fire(string_of(&v)))
    } else {
        let mut m = chars_of("未知动作：");
        extend_str(&mut m, action_kind);
        extend_str(&mut m, "（支持 click/real_click/real_type/real_key/type/clear_and_type/press_enter/scroll_into）");
        Err(string_of(&m))
    }
}

/// What an action reports: the action, the element and the page now shown.
pub fn action_done(action_kind: &str, k: &str, url: &str) -> (r: String)
    ensures
        r@ == "已执行 "@ + action_kind@ + " → ["@ + k@ + "]；当前页面："@ + url@,
{
    let mut v = chars_of("已执行 ");
    extend_str(&mut v, action_kind);
    extend_str(&mut v, " → [");
    extend_str(&mut v, k);
    extend_str(&mut v, "]；当前页面：");
    extend_str(&mut v, url);
    string_of(&v)
}

/// What a navigation reports: the page's address and title, and that the
/// user sees the same panel.
pub fn navigate_done(url: &str, title: &str) -> (r: String)
    ensures
        r@ == "已打开："@ + url@ + "\n标题："@ + title@
            + "（画面实时显示在应用浏览器面板中，用户可见、可与你共同操作同一浏览器）\n如需页面内容请调用 BrowserSnapshot。"@,
{
    let mut v = chars_of("已打开：");
    extend_str(&mut v, url);
    extend_str(&mut v, "\n标题：");
    extend_str(&mut v, title);
    extend_str(&mut v, "（画面实时显示在应用浏览器面板中，用户可见、可与你共同操作同一浏览器）\n如需页面内容请调用 BrowserSnapshot。");
    string_of(&v)
}

/// Whether the page's answer to the existence check says the element is
/// there: the answer, trimmed, is `true`.
pub fn element_exists(answer: &str) -> (r: bool)
    ensures
        r == (trim(answer@) == "true"@),
{
    eq_str(&trim_vec(&chars_of(answer)), "true")
}

/// The text of a string member, or the empty text when the member is
/// missing or not a string.
pub open spec fn str_or_empty(j: Option<Json>) -> Seq<char> {
    match str_value(j) {
        Some(t) => t,
        None => Seq::empty(),
    }
}

fn member_text(j: &Json, key: &str) -> (r: String)
    ensures
        r@ == str_or_empty(json_get(*j, key@)),
{
    match j.get(key) {
        Some(v) => match v.as_str() {
            Some(t) => owned(t),
            None => String::new(),
        },
        None => String::new(),
    }
}

/// Whether `it` is the element an answer item `j` describes: its `k`,
/// `tag`, `text`, `href` and `type` members as text (empty when missing).
pub open spec fn item_from(it: SnapshotItem, j: Json) -> bool {
    &&& it.k@ == str_or_empty(json_get(j, "k"@))
    &&& it.tag@ == str_or_empty(json_get(j, "tag"@))
    &&& it.text@ == str_or_empty(json_get(j, "text"@))
    &&& it.href@ == str_or_empty(json_get(j, "href"@))
    &&& it.kind@ == str_or_empty(json_get(j, "type"@))
}

/// Reads the element list the page returned for a snapshot: it must be a
/// JSON array; each item gives an element (see [`item_from`]). Anything
/// else is refused with a message starting `快照解析失败：`.
pub fn snapshot_items(raw: &str) -> (r: Result<Vec<SnapshotItem>, String>)
    ensures
        r is Ok <==> json_parse(raw@) matches Some(Json::Array(_)),
        r matches Ok(items) ==> (json_parse(raw@) matches Some(Json::Array(v)) && items@.len() == v@.len()
            && forall|i: int| 0 <= i < v@.len() ==> item_from(#[trigger] items@[i], v@[i])),
        r matches Err(m) ==> has_prefix(m@, "快照解析失败："@),
{
    proof {
        reveal_strlit("快照解析失败：");
    }
    let j = match parse_json(raw) {
        Ok(j) => j,
        Err(e) => {
            let mut m = chars_of("快照解析失败：");
            let n = m.len();
            extend_str(&mut m, e.as_str());
            assert(m@.take(n as int) =~= "快照解析失败："@);
            return Err(string_of(&m));
        },
    };
    match &j {
        Json::Array(v) => {
            let mut items: Vec<SnapshotItem> = Vec::new();
            for i in 0..v.len()
                invariant
                    items@.len() == i,
                    forall|k: int| 0 <= k < i ==> item_from(#[trigger] items@[k], v@[k]),
            {
                let it = &v[i];
                items.push(SnapshotItem {
                    k: member_text(it, "k"),
                    tag: member_text(it, "tag"),
                    text: member_text(it, "text"),
                    href: member_text(it, "href"),
                    kind: member_text(it, "type"),
                });
            }
            Ok(items)
        },
        _ => {
            let m = chars_of("快照解析失败：invalid type, expected a sequence");
            proof {
                reveal_strlit("快照解析失败：invalid type, expected a sequence");
                assert(m@.take("快照解析失败："@.len() as int) =~= "快照解析失败："@);
            }
            Err(string_of(&m))
        },
    }
}

/// Reads the page information the page returned: its `url` and `title`
/// members as text (empty when missing or not text). Text that is not JSON
/// is refused with a message starting `页面信息解析失败：`.
pub fn page_info_of(raw: &str) -> (r: Result<(String, String), String>)
    ensures
        r is Ok <==> json_parse(raw@) is Some,
        r matches Ok(p) ==> (json_parse(raw@) matches Some(j) && p.0@ == str_or_empty(json_get(j, "url"@))
            && p.1@ == str_or_empty(json_get(j, "title"@))),
        r matches Err(m) ==> has_prefix(m@, "页面信息解析失败："@),
{
    match parse_json(raw) {
        Ok(j) => Ok((member_text(&j, "url"), member_text(&j, "title"))),
        Err(e) => {
            let mut m = chars_of("页面信息解析失败：");
            let n = m.len();
            extend_str(&mut m, e.as_str());
            assert(m@.take(n as int) =~= "页面信息解析失败："@);
            Err(string_of(&m))
        },
    }
}

/// An interactive element of a snapshot.
#[derive(Debug, Clone)]
pub struct SnapshotItem {
    /// Its number.
    pub k: String,
    /// Tag name.
    pub tag: String,
    /// Visible text, placeholder or label.
    pub text: String,
    /// Link target.
    pub href: String,
    /// Input type.
    pub kind: String,
}

/// The line of an element: `[k] <tag type=..> text → href`, the optional
/// parts only when not empty.
pub open spec fn item_line(it: SnapshotItem) -> Seq<char> {
    "["@ + it.k@ + "] <"@ + it.tag@
        + (if it.kind@.len() > 0 { " type="@ + it.kind@ } else { Seq::empty() })
        + ">"@
        + (if it.text@.len() > 0 { " "@ + it.text@ } else { Seq::empty() })
        + (if it.href@.len() > 0 { " → "@ + it.href@ } else { Seq::empty() })
}

/// The lines of the elements.
pub open spec fn item_lines(items: Seq<SnapshotItem>) -> Seq<Seq<char>>
    decreases items.len(),
{
    if items.len() == 0 {
        Seq::empty()
    } else {
        item_lines(items.drop_last()).push(item_line(items.last()))
    }
}

/// The lines of a snapshot: the page, its title, the elements (or that
/// there are none) and, when the page has text, a summary of it.
pub open spec fn snapshot_lines(url: Seq<char>, title: Seq<char>, items: Seq<SnapshotItem>, body: Seq<char>) -> Seq<Seq<char>> {
    seq!["页面："@ + url, "标题："@ + title]
        + (if items.len() == 0 {
            seq!["（无可交互元素）"@]
        } else {
            seq!["可交互元素（BrowserAction 用 k 定位，共 "@ + nat_text(items.len()) + " 个）："@] + item_lines(items)
        })
        + (if trim(body).len() > 0 { seq!["—— 正文摘要 ——"@, trim(body)] } else { Seq::empty() })
}

/// Lines joined with line feeds.
pub open spec fn joined(lines: Seq<Seq<char>>) -> Seq<char>
    decreases lines.len(),
{
    if lines.len() == 0 {
        Seq::empty()
    } else if lines.len() == 1 {
        lines[0]
    } else {
        joined(lines.drop_last()) + "\n"@ + lines.last()
    }
}

proof fn lemma_joined_push(lines: Seq<Seq<char>>, l: Seq<char>)
    requires
        lines.len() > 0,
    ensures
        joined(lines.push(l)) == joined(lines) + "\n"@ + l,
{
    assert(lines.push(l).drop_last() =~= lines);
}

fn item_text(it: &SnapshotItem) -> (r: Vec<char>)
    ensures
        r@ == item_line(*it),
{
    let mut v = chars_of("[");
    extend_str(&mut v, it.k.as_str());
    extend_str(&mut v, "] <");
    extend_str(&mut v, it.tag.as_str());
    let kind = chars_of(it.kind.as_str());
    if kind.len() > 0 {
        extend_str(&mut v, " type=");
        extend_vec(&mut v, &kind);
    } else {
        assert(v@ + Seq::<char>::empty() =~= v@);
    }
    extend_str(&mut v, ">");
    let text = chars_of(it.text.as_str());
    if text.len() > 0 {
        extend_str(&mut v, " ");
        extend_vec(&mut v, &text);
    } else {
        assert(v@ + Seq::<char>::empty() =~= v@);
    }
    let href = chars_of(it.href.as_str());
    if href.len() > 0 {
        extend_str(&mut v, " → ");
        extend_vec(&mut v, &href);
    } else {
        assert(v@ + Seq::<char>::empty() =~= v@);
    }
    v
}

/// The snapshot reported to the agent (see [`snapshot_lines`]).
pub fn snapshot_text(url: &str, title: &str, items: &[SnapshotItem], body: &str) -> (r: String)
    ensures
        r@ == joined(snapshot_lines(url@, title@, items@, body@)),
{
    let ghost lines = snapshot_lines(url@, title@, items@, body@);
    let mut v = chars_of("页面：");
    extend_str(&mut v, url);
    let ghost mut done: Seq<Seq<char>> = seq![v@];
    extend_str(&mut v, "\n");
    extend_str(&mut v, "标题：");
    extend_str(&mut v, title);
    proof {
        lemma_joined_push(done, "标题："@ + title@);
        assert(v@ =~= joined(done) + "\n"@ + ("标题："@ + title@));
        done = done.push("标题："@ + title@);
    }
    if items.len() == 0 {
        extend_str(&mut v, "\n");
        extend_str(&mut v, "（无可交互元素）");
        proof {
            lemma_joined_push(done, "（无可交互元素）"@);
            done = done.push("（无可交互元素）"@);
        }
    } else {
        extend_str(&mut v, "\n");
        extend_str(&mut v, "可交互元素（BrowserAction 用 k 定位，共 ");
        extend_vec(&mut v, &usize_text(items.len()));
        extend_str(&mut v, " 个）：");
        proof {
            let h = "可交互元素（BrowserAction 用 k 定位，共 "@ + nat_text(items@.len()) + " 个）："@;
            lemma_joined_push(done, h);
            assert(v@ =~= joined(done) + "\n"@ + h);
            done = done.push(h);
        }
        let ghost base = done;
        for i in 0..items.len()
            invariant
                done == base + item_lines(items@.take(i as int)),
                joined(done) == v@,
                done.len() >= 2,
        {
            let line = item_text(&items[i]);
            extend_str(&mut v, "\n");
            extend_vec(&mut v, &line);
            proof {
                assert(items@.take(i + 1).drop_last() =~= items@.take(i as int));
                lemma_joined_push(done, line@);
                assert(base + item_lines(items@.take(i + 1)) =~= done.push(line@));
                done = done.push(line@);
            }
        }
        assert(items@.take(items@.len() as int) =~= items@);
    }
    let b = trim_vec(&chars_of(body));
    if b.len() > 0 {
        extend_str(&mut v, "\n");
        extend_str(&mut v, "—— 正文摘要 ——");
        proof {
            lemma_joined_push(done, "—— 正文摘要 ——"@);
            done = done.push("—— 正文摘要 ——"@);
        }
        extend_str(&mut v, "\n");
        extend_vec(&mut v, &b);
        proof {
            lemma_joined_push(done, b@);
            done = done.push(b@);
        }
    }
    assert(done =~= lines);
    string_of(&v)
}

} // verus!
