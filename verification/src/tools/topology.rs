//! The configuration parser tool: lists the interfaces of a running
//! configuration with their state, address and VLAN.

use vstd::prelude::*;

use crate::text::{
    chars_of, eq_str, is_ws, lines, replace, replace_chars, split_lines, starts_with, starts_with_str,
    string_of, trim, trim_chars, trim_end, trim_end_chars,
};

verus! {

/// An interface as the configuration describes it.
#[derive(Debug, Clone)]
pub struct Interface {
    /// The name after `interface`.
    pub name: String,
    /// The text after `ip address`, if the interface has one.
    pub ip: String,
    /// The VLAN after `switchport access vlan`, if any.
    pub vlan: String,
    /// The mode after `switchport mode`, if any.
    pub mode: String,
    /// Whether the interface is administratively shut down.
    pub shutdown: bool,
}

/// The abstract content of an [`Interface`].
pub struct InterfaceSpec {
    pub name: Seq<char>,
    pub ip: Seq<char>,
    pub vlan: Seq<char>,
    pub mode: Seq<char>,
    pub shutdown: bool,
}

impl View for Interface {
    type V = InterfaceSpec;

    open spec fn view(&self) -> InterfaceSpec {
        InterfaceSpec {
            name: self.name@,
            ip: self.ip@,
            vlan: self.vlan@,
            mode: self.mode@,
            shutdown: self.shutdown,
        }
    }
}

/// The tool's state: the configuration text entered and the interfaces
/// found in it.
#[derive(Debug, Clone)]
pub struct TopologyTool {
    pub config_input: String,
    pub interfaces: Vec<Interface>,
}

/// A fresh interface of that name, with nothing else set.
pub open spec fn blank_interface(name: Seq<char>) -> InterfaceSpec {
    InterfaceSpec {
        name,
        ip: Seq::empty(),
        vlan: Seq::empty(),
        mode: Seq::empty(),
        shutdown: false,
    }
}

/// An interface after one indented setting line `l` (trimmed): `shutdown`,
/// `ip address ...`, `switchport access vlan ...` or `switchport mode ...`;
/// any other line leaves it as it is.
pub open spec fn apply_setting(intf: InterfaceSpec, l: Seq<char>) -> InterfaceSpec {
    if l == "shutdown"@ {
        InterfaceSpec { shutdown: true, ..intf }
    } else if starts_with(l, "ip address "@) {
        InterfaceSpec { ip: replace(l, "ip address "@, Seq::empty()), ..intf }
    } else if starts_with(l, "switchport access vlan "@) {
        InterfaceSpec { vlan: replace(l, "switchport access vlan "@, Seq::empty()), ..intf }
    } else if starts_with(l, "switchport mode "@) {
        InterfaceSpec { mode: replace(l, "switchport mode "@, Seq::empty()), ..intf }
    } else {
        intf
    }
}

/// The interfaces finished so far, with the one being read (if any) added.
pub open spec fn flush(done: Seq<InterfaceSpec>, cur: Option<InterfaceSpec>) -> Seq<InterfaceSpec> {
    match cur {
        Some(i) => done.push(i),
        None => done,
    }
}

/// The parser's state after one more line: an `interface` line starts a
/// new interface, an indented line sets something on the current one, and
/// any other line ends it.
pub open spec fn parse_step(
    st: (Seq<InterfaceSpec>, Option<InterfaceSpec>),
    line: Seq<char>,
) -> (Seq<InterfaceSpec>, Option<InterfaceSpec>) {
    let te = trim_end(line);
    if starts_with(te, "interface "@) {
        (flush(st.0, st.1), Some(blank_interface(replace(te, "interface "@, Seq::empty()))))
    } else if te.len() > 0 && te[0] == ' ' && st.1 is Some {
        (st.0, Some(apply_setting(st.1->0, trim(te))))
    } else {
        (flush(st.0, st.1), None)
    }
}

/// The parser's state after the lines `ls`.
pub open spec fn parse_lines(ls: Seq<Seq<char>>) -> (Seq<InterfaceSpec>, Option<InterfaceSpec>)
    decreases ls.len(),
{
    if ls.len() == 0 {
        (Seq::empty(), None)
    } else {
        parse_step(parse_lines(ls.drop_last()), ls.last())
    }
}

/// The interfaces of a configuration text, in order.
pub open spec fn parse_interfaces(config: Seq<char>) -> Seq<InterfaceSpec> {
    let st = parse_lines(lines(config));
    flush(st.0, st.1)
}

/// The number of `interface` lines among `ls`.
pub open spec fn interface_lines(ls: Seq<Seq<char>>) -> nat
    decreases ls.len(),
{
    if ls.len() == 0 {
        0
    } else {
        interface_lines(ls.drop_last()) + if starts_with(trim_end(ls.last()), "interface "@) {
            1nat
        } else {
            0nat
        }
    }
}

proof fn lemma_parse_lines_count(ls: Seq<Seq<char>>)
    ensures
        flush(parse_lines(ls).0, parse_lines(ls).1).len() == interface_lines(ls),
        parse_lines(ls).1 is Some ==> interface_lines(ls) > 0,
    decreases ls.len(),
{
    if ls.len() > 0 {
        lemma_parse_lines_count(ls.drop_last());
    }
}

/// Every `interface` line of a configuration gives exactly one interface.
pub proof fn lemma_one_interface_per_line(config: Seq<char>)
    ensures
        parse_interfaces(config).len() == interface_lines(lines(config)),
{
    lemma_parse_lines_count(lines(config));
}

/// The line opens an interface block.
pub open spec fn is_interface_line(line: Seq<char>) -> bool {
    starts_with(trim_end(line), "interface "@)
}

/// The line is an indented setting of the open interface: it starts with
/// a space and does not open another block.
pub open spec fn is_setting_line(line: Seq<char>) -> bool {
    trim_end(line).len() > 0 && trim_end(line)[0] == ' ' && !is_interface_line(line)
}

/// The index of the first line at or after `j` that is not a setting
/// line (or the number of lines).
pub open spec fn block_end_from(ls: Seq<Seq<char>>, j: int) -> int
    decreases ls.len() - j,
{
    if j >= ls.len() || j < 0 || !is_setting_line(ls[j]) {
        j
    } else {
        block_end_from(ls, j + 1)
    }
}

/// Some line strictly between `a` and `b` trims to `shutdown`.
pub open spec fn shutdown_between(ls: Seq<Seq<char>>, a: int, b: int) -> bool {
    exists|j: int| a < j < b && trim(#[trigger] ls[j]) == "shutdown"@
}

proof fn lemma_block_end(ls: Seq<Seq<char>>, j: int)
    requires
        0 <= j <= ls.len(),
    ensures
        j <= block_end_from(ls, j) <= ls.len(),
        forall|m: int| j <= m < block_end_from(ls, j) ==> is_setting_line(#[trigger] ls[m]),
        block_end_from(ls, j) < ls.len() ==> !is_setting_line(ls[block_end_from(ls, j)]),
    decreases ls.len() - j,
{
    if j < ls.len() && is_setting_line(ls[j]) {
        lemma_block_end(ls, j + 1);
    }
}

proof fn lemma_trim_end_twice(s: Seq<char>)
    ensures
        trim_end(trim_end(s)) == trim_end(s),
    decreases s.len(),
{
    if s.len() > 0 && is_ws(s.last()) {
        lemma_trim_end_twice(s.drop_last());
    }
}

/// Reading more lines never changes an interface already finished.
proof fn lemma_done_kept(ls: Seq<Seq<char>>, a: int, m: int)
    requires
        0 <= a <= m <= ls.len(),
    ensures
        parse_lines(ls.take(a)).0.len() <= parse_lines(ls.take(m)).0.len(),
        forall|x: int|
            0 <= x < parse_lines(ls.take(a)).0.len() ==> #[trigger] parse_lines(ls.take(m)).0[x]
                == parse_lines(ls.take(a)).0[x],
    decreases m - a,
{
    if a < m {
        lemma_done_kept(ls, a, m - 1);
        assert(ls.take(m).drop_last() =~= ls.take(m - 1));
        assert(ls.take(m).last() == ls[m - 1]);
    }
}

/// Inside the block of the interface opened at line `h`, the interface is
/// still open, comes after `k` finished ones, and is shut down exactly
/// when a setting line read so far trims to `shutdown`.
proof fn lemma_open_block(ls: Seq<Seq<char>>, h: int, n: int)
    requires
        0 <= h < ls.len(),
        is_interface_line(ls[h]),
        h + 1 <= n <= block_end_from(ls, h + 1),
    ensures
        parse_lines(ls.take(n)).0.len() == interface_lines(ls.take(h)),
        parse_lines(ls.take(n)).1 is Some,
        parse_lines(ls.take(n)).1->0.shutdown == shutdown_between(ls, h, n),
    decreases n - h,
{
    lemma_block_end(ls, h + 1);
    assert(ls.take(n).drop_last() =~= ls.take(n - 1));
    assert(ls.take(n).last() == ls[n - 1]);
    if n == h + 1 {
        lemma_parse_lines_count(ls.take(h));
        assert(!shutdown_between(ls, h, n));
    } else {
        lemma_open_block(ls, h, n - 1);
        let line = ls[n - 1];
        assert(is_setting_line(line));
        let te = trim_end(line);
        lemma_trim_end_twice(line);
        assert(trim(te) == trim(line));
        if trim(line) == "shutdown"@ {
            assert(shutdown_between(ls, h, n));
        } else {
            if shutdown_between(ls, h, n) {
                let j = choose|j: int| h < j < n && trim(#[trigger] ls[j]) == "shutdown"@;
                assert(j != n - 1);
                assert(shutdown_between(ls, h, n - 1));
            }
            if shutdown_between(ls, h, n - 1) {
                let j = choose|j: int| h < j < n - 1 && trim(#[trigger] ls[j]) == "shutdown"@;
                assert(shutdown_between(ls, h, n));
            }
        }
    }
}

/// An interface is shut down exactly when a setting line of its block
/// trims to `shutdown`: for the interface opened at line `h` (the
/// `k`-th, `k` being the number of interface lines before it), the flag
/// is set exactly when one of the indented lines that follow it, up to the
/// first line that is not one, reads `shutdown` (so `no shutdown` leaves
/// it clear).
pub proof fn lemma_shutdown_from_block(config: Seq<char>, h: int)
    requires
        0 <= h < lines(config).len(),
        is_interface_line(lines(config)[h]),
    ensures
        interface_lines(lines(config).take(h)) < parse_interfaces(config).len(),
        parse_interfaces(config)[interface_lines(lines(config).take(h)) as int].shutdown
            == shutdown_between(lines(config), h, block_end_from(lines(config), h + 1)),
{
    let ls = lines(config);
    let k = interface_lines(ls.take(h)) as int;
    lemma_block_end(ls, h + 1);
    let e = block_end_from(ls, h + 1);
    lemma_open_block(ls, h, e);
    let st = parse_lines(ls.take(e));
    let cur = st.1->0;
    assert(ls.take(ls.len() as int) =~= ls);
    if e == ls.len() {
        assert(parse_interfaces(config) == st.0.push(cur));
    } else {
        assert(ls.take(e + 1).drop_last() =~= ls.take(e));
        assert(ls.take(e + 1).last() == ls[e]);
        let next = parse_lines(ls.take(e + 1));
        assert(!is_setting_line(ls[e]));
        assert(next.0 == st.0.push(cur));
        lemma_done_kept(ls, e + 1, ls.len() as int);
        let fin = parse_lines(ls);
        assert(fin.0[k] == next.0[k]);
        assert(parse_interfaces(config) == flush(fin.0, fin.1));
        assert(flush(fin.0, fin.1)[k] == fin.0[k]);
    }
}

/// The rest of `l` with every occurrence of the literal `p` removed.
fn without(l: &[char], p: &str) -> (r: String)
    requires
        p@.len() > 0,
    ensures
        r@ == replace(l@, p@, Seq::empty()),
{
    let pc = chars_of(p);
    let empty: Vec<char> = Vec::new();
    let v = replace_chars(l, pc.as_slice(), empty.as_slice());
    string_of(v.as_slice())
}

/// Applies one indented setting line to an interface.
fn apply_line(intf: &mut Interface, l: &[char])
    ensures
        final(intf)@ == apply_setting(old(intf)@, l@),
{
    proof {
        reveal_strlit("ip address ");
        reveal_strlit("switchport access vlan ");
        reveal_strlit("switchport mode ");
    }
    if eq_str(l, "shutdown") {
        intf.shutdown = true;
    } else if starts_with_str(l, "ip address ") {
        intf.ip = without(l, "ip address ");
    } else if starts_with_str(l, "switchport access vlan ") {
        intf.vlan = without(l, "switchport access vlan ");
    } else if starts_with_str(l, "switchport mode ") {
        intf.mode = without(l, "switchport mode ");
    }
}

impl Default for TopologyTool {
    /// No text, no interfaces.
    fn default() -> (r: TopologyTool)
        ensures
            r.config_input@ == Seq::<char>::empty(),
            r.interfaces@ == Seq::<Interface>::empty(),
    {
        TopologyTool { config_input: String::new(), interfaces: Vec::new() }
    }
}

impl TopologyTool {
    /// Reads the interfaces of the configuration text entered, replacing
    /// those found before.
    pub fn parse_config(&mut self)
        ensures
            final(self).config_input@ == old(self).config_input@,
            final(self).interfaces@.map_values(|i: Interface| i@) == parse_interfaces(
                old(self).config_input@,
            ),
    {
        let cs = chars_of(self.config_input.as_str());
        let ls = split_lines(cs.as_slice());
        let ghost lv = ls@.map_values(|l: Vec<char>| l@);
        let mut done: Vec<Interface> = Vec::new();
        let mut cur: Option<Interface> = None;
        let mut k: usize = 0;
        proof {
            reveal_strlit("interface ");
            assert(lv.take(0) =~= Seq::<Seq<char>>::empty());
        }
        while k < ls.len()
            invariant
                k <= ls.len(),
                lv == ls@.map_values(|l: Vec<char>| l@),
                lv == lines(self.config_input@),
                "interface "@.len() > 0,
                parse_lines(lv.take(k as int)) == (
                    done@.map_values(|i: Interface| i@),
                    match cur {
                        Some(c) => Some(c@),
                        None => None::<InterfaceSpec>,
                    },
                ),
            decreases ls.len() - k,
        {
            let line = &ls[k];
            assert(lv[k as int] == line@);
            assert(lv.take(k + 1).drop_last() =~= lv.take(k as int));
            let te = trim_end_chars(line.as_slice());
            let ghost done_before = done@.map_values(|i: Interface| i@);
            if starts_with_str(te.as_slice(), "interface ") {
                match cur {
                    Some(c) => {
                        done.push(c);
                    },
                    None => {},
                }
                assert(done@.map_values(|i: Interface| i@) =~= flush(
                    done_before,
                    parse_lines(lv.take(k as int)).1,
                ));
                let name = without(te.as_slice(), "interface ");
                cur = Some(
                    Interface {
                        name,
                        ip: String::new(),
                        vlan: String::new(),
                        mode: String::new(),
                        shutdown: false,
                    },
                );
            } else if te.len() > 0 && te[0] == ' ' && cur.is_some() {
                let l = trim_chars(te.as_slice());
                let mut c = match cur {
                    Some(c) => c,
                    None => {
                        proof {
                            assert(false);
                        }
                        return;
                    },
                };
                apply_line(&mut c, l.as_slice());
                cur = Some(c);
            } else {
                match cur {
                    Some(c) => {
                        done.push(c);
                    },
                    None => {},
                }
                assert(done@.map_values(|i: Interface| i@) =~= flush(
                    done_before,
                    parse_lines(lv.take(k as int)).1,
                ));
                cur = None;
            }
            k = k + 1;
        }
        match cur {
            Some(c) => {
                done.push(c);
            },
            None => {},
        }
        proof {
            assert(lv.take(ls.len() as int) =~= lv);
        }
        self.interfaces = done;
    }
}

} // verus!
