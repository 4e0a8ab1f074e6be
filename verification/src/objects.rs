//! Reading the UDisks object tree into the model.
//!
//! The front end fetches the tree over D-Bus and hands it over as plain
//! values: each object path with its interfaces, each interface with its
//! properties, in the order the reply listed them.

use vstd::prelude::*;

use crate::model::{
    first_where, item_views, lemma_first_at, lemma_first_none, pair_views, Ata, Block, ConfigItem,
    ConfigItemV, Drive, Job, Model, PairV, PartTable, Partition, PropVal, PropValV, Raid,
};
use crate::text::same_str;
use crate::util::{before_nul, c_string, lossy_utf8};

verus! {

/// A D-Bus value. `F64` holds the bits of the float (`f64::to_bits`).
pub enum DValue {
    Bool(bool),
    U8(u8),
    I16(i16),
    U16(u16),
    I32(i32),
    U32(u32),
    I64(i64),
    U64(u64),
    F64(u64),
    Str(String),
    Path(String),
    Array(Vec<DValue>),
    Structure(Vec<DValue>),
    Dict(Vec<(DValue, DValue)>),
    Variant(Box<DValue>),
    Other,
}

/// The properties of one interface.
pub type Props = Vec<(String, DValue)>;

/// The interfaces of one object.
pub type Ifaces = Vec<(String, Props)>;

// ---------------------------------------------------------------------------
// Reading values
// ---------------------------------------------------------------------------

/// A variant is looked through once.
pub open spec fn unvar(v: DValue) -> DValue {
    match v {
        DValue::Variant(b) => *b,
        _ => v,
    }
}

pub open spec fn as_str(v: DValue) -> Option<Seq<char>> {
    match unvar(v) {
        DValue::Str(t) => Some(t@),
        DValue::Path(p) => Some(p@),
        _ => None,
    }
}

pub open spec fn prop(props: Seq<(String, DValue)>, name: Seq<char>) -> Option<DValue> {
    match first_where(props, |e: (String, DValue)| e.0@ == name) {
        Some(e) => Some(e.1),
        None => None,
    }
}

pub open spec fn prop_str(props: Seq<(String, DValue)>, name: Seq<char>) -> Seq<char> {
    match prop(props, name) {
        Some(v) => match as_str(v) {
            Some(t) => t,
            None => Seq::empty(),
        },
        None => Seq::empty(),
    }
}

/// An object path property; `/` (no object) when absent.
pub open spec fn prop_path(props: Seq<(String, DValue)>, name: Seq<char>) -> Seq<char> {
    match prop(props, name) {
        Some(v) => match as_str(v) {
            Some(t) => t,
            None => "/"@,
        },
        None => "/"@,
    }
}

pub open spec fn prop_bool(props: Seq<(String, DValue)>, name: Seq<char>) -> bool {
    match prop(props, name) {
        Some(v) => unvar(v) == DValue::Bool(true),
        None => false,
    }
}

pub open spec fn prop_u64(props: Seq<(String, DValue)>, name: Seq<char>) -> u64 {
    match prop(props, name) {
        Some(v) => match unvar(v) {
            DValue::U64(x) => x,
            DValue::U32(x) => x as u64,
            DValue::I64(x) => if x >= 0 {
                x as u64
            } else {
                0
            },
            DValue::U16(x) => x as u64,
            _ => 0,
        },
        None => 0,
    }
}

pub open spec fn prop_i32(props: Seq<(String, DValue)>, name: Seq<char>) -> i32 {
    match prop(props, name) {
        Some(v) => match unvar(v) {
            DValue::I32(x) => x,
            DValue::U32(x) => x as i32,
            DValue::I64(x) => x as i32,
            _ => 0,
        },
        None => 0,
    }
}

pub open spec fn prop_f64_bits(props: Seq<(String, DValue)>, name: Seq<char>) -> u64 {
    match prop(props, name) {
        Some(v) => match unvar(v) {
            DValue::F64(b) => b,
            _ => 0,
        },
        None => 0,
    }
}

/// The bytes among the items of an array.
pub open spec fn bytes_of(items: Seq<DValue>) -> Seq<u8>
    decreases items.len(),
{
    if items.len() == 0 {
        Seq::empty()
    } else {
        bytes_of(items.drop_last()) + match unvar(items.last()) {
            DValue::U8(b) => seq![b],
            _ => Seq::empty(),
        }
    }
}

/// A byte-string property as text up to its NUL, or a string property.
pub open spec fn prop_bytes(props: Seq<(String, DValue)>, name: Seq<char>) -> Seq<char> {
    match prop(props, name) {
        Some(v) => match unvar(v) {
            DValue::Array(items) => lossy_utf8(before_nul(bytes_of(items@))),
            DValue::Str(t) => t@,
            _ => Seq::empty(),
        },
        None => Seq::empty(),
    }
}

/// The non-empty texts of an array of byte strings (or strings).
pub open spec fn texts_of(items: Seq<DValue>) -> Seq<Seq<char>>
    decreases items.len(),
{
    if items.len() == 0 {
        Seq::empty()
    } else {
        texts_of(items.drop_last()) + match unvar(items.last()) {
            DValue::Array(inner) => {
                let t = lossy_utf8(before_nul(bytes_of(inner@)));
                if t.len() > 0 {
                    seq![t]
                } else {
                    Seq::empty()
                }
            },
            DValue::Str(t) => seq![t@],
            _ => Seq::empty(),
        }
    }
}

pub open spec fn prop_byte_list(props: Seq<(String, DValue)>, name: Seq<char>) -> Seq<Seq<char>> {
    match prop(props, name) {
        Some(v) => match unvar(v) {
            DValue::Array(items) => texts_of(items@),
            _ => Seq::empty(),
        },
        None => Seq::empty(),
    }
}

pub open spec fn paths_of(items: Seq<DValue>) -> Seq<Seq<char>>
    decreases items.len(),
{
    if items.len() == 0 {
        Seq::empty()
    } else {
        paths_of(items.drop_last()) + match as_str(items.last()) {
            Some(p) => seq![p],
            None => Seq::empty(),
        }
    }
}

pub open spec fn prop_paths(props: Seq<(String, DValue)>, name: Seq<char>) -> Seq<Seq<char>> {
    match prop(props, name) {
        Some(v) => match unvar(v) {
            DValue::Array(items) => paths_of(items@),
            _ => Seq::empty(),
        },
        None => Seq::empty(),
    }
}

/// A configuration value as one of the kinds that can be written back.
pub open spec fn as_prop(v: DValue) -> PropValV {
    match unvar(v) {
        DValue::Bool(b) => PropValV::Bool(b),
        DValue::I32(x) => PropValV::I32(x),
        DValue::U32(x) => PropValV::U32(x),
        DValue::U64(x) => PropValV::U64(x),
        DValue::I64(x) => PropValV::I64(x),
        DValue::Str(t) => PropValV::Str(t@),
        DValue::Path(p) => PropValV::Path(p@),
        DValue::Array(items) => PropValV::Bytes(bytes_of(items@)),
        _ => PropValV::Str(Seq::empty()),
    }
}

pub open spec fn dict_entries(es: Seq<(DValue, DValue)>) -> Seq<PairV>
    decreases es.len(),
{
    if es.len() == 0 {
        Seq::empty()
    } else {
        dict_entries(es.drop_last()) + match as_str(es.last().0) {
            Some(k) => seq![(k, as_prop(es.last().1))],
            None => Seq::empty(),
        }
    }
}

/// The string-keyed entries of a dict.
pub open spec fn dict_props(v: DValue) -> Seq<PairV> {
    match unvar(v) {
        DValue::Dict(es) => dict_entries(es@),
        _ => Seq::empty(),
    }
}

pub open spec fn prop_dict(props: Seq<(String, DValue)>, name: Seq<char>) -> Seq<PairV> {
    match prop(props, name) {
        Some(v) => dict_props(v),
        None => Seq::empty(),
    }
}

/// The member devices of an array: the first field of each entry, without
/// the empty path `/`.
pub open spec fn members_of(items: Seq<DValue>) -> Seq<Seq<char>>
    decreases items.len(),
{
    if items.len() == 0 {
        Seq::empty()
    } else {
        members_of(items.drop_last()) + match unvar(items.last()) {
            DValue::Structure(fields) => if fields@.len() > 0 {
                match as_str(unvar(fields@[0])) {
                    Some(p) => if p != "/"@ {
                        seq![p]
                    } else {
                        Seq::empty()
                    },
                    None => Seq::empty(),
                }
            } else {
                Seq::empty()
            },
            _ => Seq::empty(),
        }
    }
}

pub open spec fn active_devices(v: DValue) -> Seq<Seq<char>> {
    match unvar(v) {
        DValue::Array(items) => members_of(items@),
        _ => Seq::empty(),
    }
}

/// The configuration items of a block: each a kind and a dict.
pub open spec fn config_of(items: Seq<DValue>) -> Seq<ConfigItemV>
    decreases items.len(),
{
    if items.len() == 0 {
        Seq::empty()
    } else {
        config_of(items.drop_last()) + match unvar(items.last()) {
            DValue::Structure(es) => if es@.len() > 0 {
                match as_str(unvar(es@[0])) {
                    Some(kind) => seq![
                        ConfigItemV {
                            kind,
                            fields: if es@.len() > 1 {
                                dict_props(unvar(es@[1]))
                            } else {
                                Seq::empty()
                            },
                        },
                    ],
                    None => Seq::empty(),
                }
            } else {
                Seq::empty()
            },
            _ => Seq::empty(),
        }
    }
}

pub open spec fn parse_config(v: DValue) -> Seq<ConfigItemV> {
    match unvar(v) {
        DValue::Array(items) => config_of(items@),
        _ => Seq::empty(),
    }
}

fn unvar_ref(v: &DValue) -> (r: &DValue)
    ensures
        *r == unvar(*v),
{
    match v {
        DValue::Variant(b) => &**b,
        _ => v,
    }
}

fn text_of(v: &DValue) -> (r: Option<String>)
    ensures
        match r {
            Some(t) => as_str(*v) == Some(t@),
            None => as_str(*v) is None,
        },
{
    match unvar_ref(v) {
        DValue::Str(t) => Some(t.clone()),
        DValue::Path(p) => Some(p.clone()),
        _ => None,
    }
}

fn find_prop<'a>(props: &'a Props, name: &str) -> (r: Option<&'a DValue>)
    ensures
        match r {
            Some(v) => prop(props@, name@) == Some(*v),
            None => prop(props@, name@) is None,
        },
{
    let ghost f = |e: (String, DValue)| e.0@ == name@;
    let mut i: usize = 0;
    while i < props.len()
        invariant
            i <= props@.len(),
            f == (|e: (String, DValue)| e.0@ == name@),
            forall|j: int| 0 <= j < i ==> !f(#[trigger] props@[j]),
        decreases props@.len() - i,
    {
        if same_str(props[i].0.as_str(), name) {
            proof {
                lemma_first_at(props@, f, i as int);
            }
            return Some(&props[i].1);
        }
        i = i + 1;
    }
    proof {
        lemma_first_none(props@, f);
    }
    None
}

pub fn read_str(props: &Props, name: &str) -> (r: String)
    ensures
        r@ == prop_str(props@, name@),
{
    match find_prop(props, name) {
        Some(v) => match text_of(v) {
            Some(t) => t,
            None => String::new(),
        },
        None => String::new(),
    }
}

pub fn read_path(props: &Props, name: &str) -> (r: String)
    ensures
        r@ == prop_path(props@, name@),
{
    match find_prop(props, name) {
        Some(v) => match text_of(v) {
            Some(t) => t,
            None => String::from_str("/"),
        },
        None => String::from_str("/"),
    }
}

pub fn read_bool(props: &Props, name: &str) -> (r: bool)
    ensures
        r == prop_bool(props@, name@),
{
    match find_prop(props, name) {
        Some(v) => match unvar_ref(v) {
            DValue::Bool(b) => *b,
            _ => false,
        },
        None => false,
    }
}

pub fn read_u64(props: &Props, name: &str) -> (r: u64)
    ensures
        r == prop_u64(props@, name@),
{
    match find_prop(props, name) {
        Some(v) => match unvar_ref(v) {
            DValue::U64(x) => *x,
            DValue::U32(x) => *x as u64,
            DValue::I64(x) => if *x >= 0 {
                *x as u64
            } else {
                0
            },
            DValue::U16(x) => *x as u64,
            _ => 0,
        },
        None => 0,
    }
}

pub fn read_i32(props: &Props, name: &str) -> (r: i32)
    ensures
        r == prop_i32(props@, name@),
{
    match find_prop(props, name) {
        Some(v) => match unvar_ref(v) {
            DValue::I32(x) => *x,
            DValue::U32(x) => *x as i32,
            DValue::I64(x) => *x as i32,
            _ => 0,
        },
        None => 0,
    }
}

pub fn read_f64_bits(props: &Props, name: &str) -> (r: u64)
    ensures
        r == prop_f64_bits(props@, name@),
{
    match find_prop(props, name) {
        Some(v) => match unvar_ref(v) {
            DValue::F64(b) => *b,
            _ => 0,
        },
        None => 0,
    }
}

fn collect_bytes(items: &Vec<DValue>) -> (r: Vec<u8>)
    ensures
        r@ == bytes_of(items@),
{
    let mut r: Vec<u8> = Vec::new();
    let mut i: usize = 0;
    while i < items.len()
        invariant
            i <= items@.len(),
            r@ == bytes_of(items@.subrange(0, i as int)),
        decreases items@.len() - i,
    {
        let ghost n = items@.subrange(0, i + 1);
        assert(n.drop_last() =~= items@.subrange(0, i as int));
        assert(n.last() == items@[i as int]);
        let ghost pre = r@;
        match unvar_ref(&items[i]) {
            DValue::U8(b) => {
                r.push(*b);
                assert(r@ =~= pre + seq![*b]);
            },
            _ => {
                assert(r@ =~= pre + Seq::<u8>::empty());
            },
        }
        i = i + 1;
    }
    assert(items@.subrange(0, items@.len() as int) =~= items@);
    r
}

pub fn read_bytes(props: &Props, name: &str) -> (r: String)
    ensures
        r@ == prop_bytes(props@, name@),
{
    match find_prop(props, name) {
        Some(v) => match unvar_ref(v) {
            DValue::Array(items) => {
                let b = collect_bytes(items);
                c_string(b.as_slice())
            },
            DValue::Str(t) => t.clone(),
            _ => String::new(),
        },
        None => String::new(),
    }
}

pub fn read_byte_list(props: &Props, name: &str) -> (r: Vec<String>)
    ensures
        crate::op::string_views(r@) == prop_byte_list(props@, name@),
{
    let items = match find_prop(props, name) {
        Some(v) => match unvar_ref(v) {
            DValue::Array(items) => items,
            _ => return Vec::new(),
        },
        None => return Vec::new(),
    };
    let mut r: Vec<String> = Vec::new();
    let mut i: usize = 0;
    while i < items.len()
        invariant
            i <= items@.len(),
            crate::op::string_views(r@) == texts_of(items@.subrange(0, i as int)),
        decreases items@.len() - i,
    {
        let ghost n = items@.subrange(0, i + 1);
        assert(n.drop_last() =~= items@.subrange(0, i as int));
        assert(n.last() == items@[i as int]);
        let ghost pre = crate::op::string_views(r@);
        match unvar_ref(&items[i]) {
            DValue::Array(inner) => {
                let b = collect_bytes(inner);
                let t = c_string(b.as_slice());
                if !t.as_str().is_empty() {
                    r.push(t);
                    assert(crate::op::string_views(r@) =~= pre + seq![r@.last()@]);
                } else {
                    assert(crate::op::string_views(r@) =~= pre + Seq::<Seq<char>>::empty());
                }
            },
            DValue::Str(t) => {
                r.push(t.clone());
                assert(crate::op::string_views(r@) =~= pre + seq![r@.last()@]);
            },
            _ => {
                assert(crate::op::string_views(r@) =~= pre + Seq::<Seq<char>>::empty());
            },
        }
        i = i + 1;
    }
    assert(items@.subrange(0, items@.len() as int) =~= items@);
    r
}

pub fn read_paths(props: &Props, name: &str) -> (r: Vec<String>)
    ensures
        crate::op::string_views(r@) == prop_paths(props@, name@),
{
    let items = match find_prop(props, name) {
        Some(v) => match unvar_ref(v) {
            DValue::Array(items) => items,
            _ => return Vec::new(),
        },
        None => return Vec::new(),
    };
    let mut r: Vec<String> = Vec::new();
    let mut i: usize = 0;
    while i < items.len()
        invariant
            i <= items@.len(),
            crate::op::string_views(r@) == paths_of(items@.subrange(0, i as int)),
        decreases items@.len() - i,
    {
        let ghost n = items@.subrange(0, i + 1);
        assert(n.drop_last() =~= items@.subrange(0, i as int));
        assert(n.last() == items@[i as int]);
        let ghost pre = crate::op::string_views(r@);
        match text_of(&items[i]) {
            Some(t) => {
                r.push(t);
                assert(crate::op::string_views(r@) =~= pre + seq![r@.last()@]);
            },
            None => {
                assert(crate::op::string_views(r@) =~= pre + Seq::<Seq<char>>::empty());
            },
        }
        i = i + 1;
    }
    assert(items@.subrange(0, items@.len() as int) =~= items@);
    r
}

fn to_prop(v: &DValue) -> (r: PropVal)
    ensures
        r@ == as_prop(*v),
{
    match unvar_ref(v) {
        DValue::Bool(b) => PropVal::Bool(*b),
        DValue::I32(x) => PropVal::I32(*x),
        DValue::U32(x) => PropVal::U32(*x),
        DValue::U64(x) => PropVal::U64(*x),
        DValue::I64(x) => PropVal::I64(*x),
        DValue::Str(t) => PropVal::Str(t.clone()),
        DValue::Path(p) => PropVal::Path(p.clone()),
        DValue::Array(items) => PropVal::Bytes(collect_bytes(items)),
        _ => PropVal::Str(String::new()),
    }
}

fn read_dict(v: &DValue) -> (r: Vec<(String, PropVal)>)
    ensures
        pair_views(r@) == dict_props(*v),
{
    let es = match unvar_ref(v) {
        DValue::Dict(es) => es,
        _ => {
            let r: Vec<(String, PropVal)> = Vec::new();
            assert(pair_views(r@) =~= Seq::<PairV>::empty());
            return r;
        },
    };
    let mut r: Vec<(String, PropVal)> = Vec::new();
    let mut i: usize = 0;
    while i < es.len()
        invariant
            i <= es@.len(),
            pair_views(r@) == dict_entries(es@.subrange(0, i as int)),
        decreases es@.len() - i,
    {
        let ghost n = es@.subrange(0, i + 1);
        assert(n.drop_last() =~= es@.subrange(0, i as int));
        assert(n.last() == es@[i as int]);
        let ghost pre = r@;
        match text_of(&es[i].0) {
            Some(k) => {
                let e = (k, to_prop(&es[i].1));
                r.push(e);
                assert(pair_views(r@) =~= pair_views(pre) + seq![(e.0@, e.1@)]);
            },
            None => {
                assert(pair_views(r@) =~= pair_views(pre) + Seq::<PairV>::empty());
            },
        }
        i = i + 1;
    }
    assert(es@.subrange(0, es@.len() as int) =~= es@);
    r
}

pub fn read_dict_prop(props: &Props, name: &str) -> (r: Vec<(String, PropVal)>)
    ensures
        pair_views(r@) == prop_dict(props@, name@),
{
    match find_prop(props, name) {
        Some(v) => read_dict(v),
        None => {
            let r: Vec<(String, PropVal)> = Vec::new();
            assert(pair_views(r@) =~= Seq::<PairV>::empty());
            r
        },
    }
}

fn read_members(v: &DValue) -> (r: Vec<String>)
    ensures
        crate::op::string_views(r@) == active_devices(*v),
{
    let items = match unvar_ref(v) {
        DValue::Array(items) => items,
        _ => {
            let r: Vec<String> = Vec::new();
            assert(crate::op::string_views(r@) =~= Seq::<Seq<char>>::empty());
            return r;
        },
    };
    let mut r: Vec<String> = Vec::new();
    let mut i: usize = 0;
    while i < items.len()
        invariant
            i <= items@.len(),
            crate::op::string_views(r@) == members_of(items@.subrange(0, i as int)),
        decreases items@.len() - i,
    {
        let ghost n = items@.subrange(0, i + 1);
        assert(n.drop_last() =~= items@.subrange(0, i as int));
        assert(n.last() == items@[i as int]);
        let ghost pre = crate::op::string_views(r@);
        let mut pushed = false;
        match unvar_ref(&items[i]) {
            DValue::Structure(fields) => {
                if fields.len() > 0 {
                    match text_of(unvar_ref(&fields[0])) {
                        Some(p) => {
                            if !same_str(p.as_str(), "/") {
                                r.push(p);
                                pushed = true;
                                assert(crate::op::string_views(r@) =~= pre + seq![r@.last()@]);
                            }
                        },
                        None => {},
                    }
                }
            },
            _ => {},
        }
        if !pushed {
            assert(crate::op::string_views(r@) =~= pre + Seq::<Seq<char>>::empty());
        }
        i = i + 1;
    }
    assert(items@.subrange(0, items@.len() as int) =~= items@);
    r
}

fn read_config(v: &DValue) -> (r: Vec<ConfigItem>)
    ensures
        item_views(r@) == parse_config(*v),
{
    let items = match unvar_ref(v) {
        DValue::Array(items) => items,
        _ => {
            let r: Vec<ConfigItem> = Vec::new();
            assert(item_views(r@) =~= Seq::<ConfigItemV>::empty());
            return r;
        },
    };
    let mut r: Vec<ConfigItem> = Vec::new();
    let mut i: usize = 0;
    while i < items.len()
        invariant
            i <= items@.len(),
            item_views(r@) == config_of(items@.subrange(0, i as int)),
        decreases items@.len() - i,
    {
        let ghost n = items@.subrange(0, i + 1);
        assert(n.drop_last() =~= items@.subrange(0, i as int));
        assert(n.last() == items@[i as int]);
        let ghost pre = item_views(r@);
        let mut pushed = false;
        match unvar_ref(&items[i]) {
            DValue::Structure(es) => {
                if es.len() > 0 {
                    match text_of(unvar_ref(&es[0])) {
                        Some(kind) => {
                            let fields = if es.len() > 1 {
                                read_dict(unvar_ref(&es[1]))
                            } else {
                                let e: Vec<(String, PropVal)> = Vec::new();
                                assert(pair_views(e@) =~= Seq::<PairV>::empty());
                                e
                            };
                            let c = ConfigItem { kind, fields };
                            r.push(c);
                            pushed = true;
                            assert(item_views(r@) =~= pre + seq![r@.last()@]);
                        },
                        None => {},
                    }
                }
            },
            _ => {},
        }
        if !pushed {
            assert(item_views(r@) =~= pre + Seq::<ConfigItemV>::empty());
        }
        i = i + 1;
    }
    assert(items@.subrange(0, items@.len() as int) =~= items@);
    r
}


// ---------------------------------------------------------------------------
// Objects
// ---------------------------------------------------------------------------

pub open spec fn ata_spec(p: Seq<(String, DValue)>) -> Ata {
    Ata {
        smart_supported: prop_bool(p, "SmartSupported"@),
        smart_enabled: prop_bool(p, "SmartEnabled"@),
        smart_failing: prop_bool(p, "SmartFailing"@),
        pm_supported: prop_bool(p, "PmSupported"@),
        apm_supported: prop_bool(p, "ApmSupported"@),
        write_cache_supported: prop_bool(p, "WriteCacheSupported"@),
        write_cache_enabled: prop_bool(p, "WriteCacheEnabled"@),
        lookahead_supported: prop_bool(p, "ReadLookaheadSupported"@),
        lookahead_enabled: prop_bool(p, "ReadLookaheadEnabled"@),
        secure_erase_minutes: prop_i32(p, "SecurityEraseUnitMinutes"@),
        secure_erase_enhanced_minutes: prop_i32(p, "SecurityEnhancedEraseUnitMinutes"@),
        security_frozen: prop_bool(p, "SecurityFrozen"@),
    }
}

pub fn parse_ata(props: &Props) -> (a: Ata)
    ensures
        a == ata_spec(props@),
{
    Ata {
        smart_supported: read_bool(props, "SmartSupported"),
        smart_enabled: read_bool(props, "SmartEnabled"),
        smart_failing: read_bool(props, "SmartFailing"),
        pm_supported: read_bool(props, "PmSupported"),
        apm_supported: read_bool(props, "ApmSupported"),
        write_cache_supported: read_bool(props, "WriteCacheSupported"),
        write_cache_enabled: read_bool(props, "WriteCacheEnabled"),
        lookahead_supported: read_bool(props, "ReadLookaheadSupported"),
        lookahead_enabled: read_bool(props, "ReadLookaheadEnabled"),
        secure_erase_minutes: read_i32(props, "SecurityEraseUnitMinutes"),
        secure_erase_enhanced_minutes: read_i32(props, "SecurityEnhancedEraseUnitMinutes"),
        security_frozen: read_bool(props, "SecurityFrozen"),
    }
}

/// A drive read from its Drive properties, its ATA properties when it has
/// them, and whether it is an NVMe controller.
pub open spec fn drive_from(
    d: Drive,
    path: Seq<char>,
    p: Seq<(String, DValue)>,
    ata: Option<Seq<(String, DValue)>>,
    nvme: bool,
) -> bool {
    &&& d.path@ == path
    &&& d.vendor@ == prop_str(p, "Vendor"@)
    &&& d.model@ == prop_str(p, "Model"@)
    &&& d.revision@ == prop_str(p, "Revision"@)
    &&& d.serial@ == prop_str(p, "Serial"@)
    &&& d.size == prop_u64(p, "Size"@)
    &&& d.connection@ == prop_str(p, "ConnectionBus"@)
    &&& d.media@ == prop_str(p, "Media"@)
    &&& d.removable == prop_bool(p, "Removable"@)
    &&& d.ejectable == prop_bool(p, "Ejectable"@)
    &&& d.optical == prop_bool(p, "Optical"@)
    &&& d.can_power_off == prop_bool(p, "CanPowerOff"@)
    &&& d.sort_key@ == prop_str(p, "SortKey"@)
    &&& d.rotation == prop_i32(p, "RotationRate"@)
    &&& pair_views(d.config@) == prop_dict(p, "Configuration"@)
    &&& d.ata == match ata {
        Some(a) => Some(ata_spec(a)),
        None => None,
    }
    &&& d.nvme == nvme
    &&& d.nvme_path@ == path
}

pub fn parse_drive(path: &str, props: &Props, ata: Option<&Props>, nvme: Option<&Props>) -> (d: Drive)
    ensures
        drive_from(
            d,
            path@,
            props@,
            match ata {
                Some(a) => Some(a@),
                None => None,
            },
            nvme is Some,
        ),
{
    Drive {
        path: String::from_str(path),
        vendor: read_str(props, "Vendor"),
        model: read_str(props, "Model"),
        revision: read_str(props, "Revision"),
        serial: read_str(props, "Serial"),
        size: read_u64(props, "Size"),
        connection: read_str(props, "ConnectionBus"),
        media: read_str(props, "Media"),
        removable: read_bool(props, "Removable"),
        ejectable: read_bool(props, "Ejectable"),
        optical: read_bool(props, "Optical"),
        can_power_off: read_bool(props, "CanPowerOff"),
        sort_key: read_str(props, "SortKey"),
        rotation: read_i32(props, "RotationRate"),
        config: read_dict_prop(props, "Configuration"),
        ata: match ata {
            Some(a) => Some(parse_ata(a)),
            None => None,
        },
        nvme: nvme.is_some(),
        nvme_path: String::from_str(path),
    }
}

pub open spec fn partition_from(q: Partition, p: Seq<(String, DValue)>) -> bool {
    &&& q.number == prop_u64(p, "Number"@) as u32
    &&& q.type_code@ == prop_str(p, "Type"@)
    &&& q.name@ == prop_str(p, "Name"@)
    &&& q.flags == prop_u64(p, "Flags"@)
    &&& q.offset == prop_u64(p, "Offset"@)
    &&& q.size == prop_u64(p, "Size"@)
    &&& q.uuid@ == prop_str(p, "UUID"@)
    &&& q.table@ == prop_path(p, "Table"@)
    &&& q.container == prop_bool(p, "IsContainer"@)
    &&& q.contained == prop_bool(p, "IsContained"@)
}

pub fn parse_partition(props: &Props) -> (q: Partition)
    ensures
        partition_from(q, props@),
{
    Partition {
        number: read_u64(props, "Number") as u32,
        type_code: read_str(props, "Type"),
        name: read_str(props, "Name"),
        flags: read_u64(props, "Flags"),
        offset: read_u64(props, "Offset"),
        size: read_u64(props, "Size"),
        uuid: read_str(props, "UUID"),
        table: read_path(props, "Table"),
        container: read_bool(props, "IsContainer"),
        contained: read_bool(props, "IsContained"),
    }
}

/// The properties of an interface of an object.
pub open spec fn iface(ifaces: Seq<(String, Props)>, name: Seq<char>) -> Option<Seq<(String, DValue)>> {
    match first_where(ifaces, |e: (String, Props)| e.0@ == name) {
        Some(e) => Some(e.1@),
        None => None,
    }
}

fn find_iface<'a>(ifaces: &'a Ifaces, name: &str) -> (r: Option<&'a Props>)
    ensures
        match r {
            Some(p) => iface(ifaces@, name@) == Some(p@),
            None => iface(ifaces@, name@) is None,
        },
{
    let ghost f = |e: (String, Props)| e.0@ == name@;
    let mut i: usize = 0;
    while i < ifaces.len()
        invariant
            i <= ifaces@.len(),
            f == (|e: (String, Props)| e.0@ == name@),
            forall|j: int| 0 <= j < i ==> !f(#[trigger] ifaces@[j]),
        decreases ifaces@.len() - i,
    {
        if same_str(ifaces[i].0.as_str(), name) {
            proof {
                lemma_first_at(ifaces@, f, i as int);
            }
            return Some(&ifaces[i].1);
        }
        i = i + 1;
    }
    proof {
        lemma_first_none(ifaces@, f);
    }
    None
}

/// A block read from its Block properties and the other interfaces of its
/// object: partition, partition table, filesystem, swap, encryption, loop.
pub open spec fn block_from(b: Block, path: Seq<char>, p: Seq<(String, DValue)>, ifs: Seq<(String, Props)>) -> bool {
    let part = iface(ifs, "org.freedesktop.UDisks2.Partition"@);
    let table = iface(ifs, "org.freedesktop.UDisks2.PartitionTable"@);
    let fs = iface(ifs, "org.freedesktop.UDisks2.Filesystem"@);
    let swap = iface(ifs, "org.freedesktop.UDisks2.Swapspace"@);
    let enc = iface(ifs, "org.freedesktop.UDisks2.Encrypted"@);
    let lp = iface(ifs, "org.freedesktop.UDisks2.Loop"@);
    let device = prop_bytes(p, "Device"@);
    let preferred = prop_bytes(p, "PreferredDevice"@);
    &&& b.path@ == path
    &&& b.device@ == device
    &&& b.preferred@ == if preferred.len() == 0 {
        device
    } else {
        preferred
    }
    &&& b.id_usage@ == prop_str(p, "IdUsage"@)
    &&& b.id_type@ == prop_str(p, "IdType"@)
    &&& b.id_label@ == prop_str(p, "IdLabel"@)
    &&& b.id_uuid@ == prop_str(p, "IdUUID"@)
    &&& b.size == prop_u64(p, "Size"@)
    &&& b.read_only == prop_bool(p, "ReadOnly"@)
    &&& b.hint_system == prop_bool(p, "HintSystem"@)
    &&& b.hint_ignore == prop_bool(p, "HintIgnore"@)
    &&& b.drive@ == prop_path(p, "Drive"@)
    &&& b.crypto_backing@ == prop_path(p, "CryptoBackingDevice"@)
    &&& b.mdraid@ == prop_path(p, "MDRaid"@)
    &&& b.mdraid_member@ == prop_path(p, "MDRaidMember"@)
    &&& crate::op::string_views(b.symlinks@) == prop_byte_list(p, "Symlinks"@)
    &&& match part {
        Some(q) => b.partition is Some && partition_from(b.partition->0, q),
        None => b.partition is None,
    }
    &&& match table {
        Some(t) => b.table is Some && b.table->0.kind@ == prop_str(t, "Type"@),
        None => b.table is None,
    }
    &&& b.filesystem == fs is Some
    &&& crate::op::string_views(b.mount_points@) == match fs {
        Some(f) => prop_byte_list(f, "MountPoints"@),
        None => Seq::empty(),
    }
    &&& b.swap == swap is Some
    &&& b.swap_active == match swap {
        Some(w) => prop_bool(w, "Active"@),
        None => false,
    }
    &&& b.encrypted == enc is Some
    &&& b.cleartext@ == match enc {
        Some(e) => prop_path(e, "CleartextDevice"@),
        None => "/"@,
    }
    &&& b.hint_encryption@ == match enc {
        Some(e) => prop_str(e, "HintEncryptionType"@),
        None => Seq::empty(),
    }
    &&& b.loopback == lp is Some
    &&& b.backing_file@ == match lp {
        Some(l) => prop_bytes(l, "BackingFile"@),
        None => Seq::empty(),
    }
    &&& b.loop_autoclear == match lp {
        Some(l) => prop_bool(l, "Autoclear"@),
        None => false,
    }
    &&& item_views(b.config@) == match prop(p, "Configuration"@) {
        Some(v) => parse_config(v),
        None => Seq::empty(),
    }
}

pub fn parse_block(path: &str, props: &Props, ifaces: &Ifaces) -> (b: Block)
    ensures
        block_from(b, path@, props@, ifaces@),
{
    let partition = match find_iface(ifaces, "org.freedesktop.UDisks2.Partition") {
        Some(p) => Some(parse_partition(p)),
        None => None,
    };
    let table = match find_iface(ifaces, "org.freedesktop.UDisks2.PartitionTable") {
        Some(p) => Some(PartTable { kind: read_str(p, "Type") }),
        None => None,
    };
    let fs = find_iface(ifaces, "org.freedesktop.UDisks2.Filesystem");
    let swap = find_iface(ifaces, "org.freedesktop.UDisks2.Swapspace");
    let enc = find_iface(ifaces, "org.freedesktop.UDisks2.Encrypted");
    let loop_dev = find_iface(ifaces, "org.freedesktop.UDisks2.Loop");
    let preferred = read_bytes(props, "PreferredDevice");
    let device = read_bytes(props, "Device");
    let config = match find_prop(props, "Configuration") {
        Some(v) => read_config(v),
        None => {
            let c: Vec<ConfigItem> = Vec::new();
            assert(item_views(c@) =~= Seq::<ConfigItemV>::empty());
            c
        },
    };
    let mount_points = match fs {
        Some(f) => read_byte_list(f, "MountPoints"),
        None => {
            let m: Vec<String> = Vec::new();
            assert(crate::op::string_views(m@) =~= Seq::<Seq<char>>::empty());
            m
        },
    };
    Block {
        path: String::from_str(path),
        device: device.clone(),
        preferred: if preferred.as_str().is_empty() {
            device
        } else {
            preferred
        },
        id_usage: read_str(props, "IdUsage"),
        id_type: read_str(props, "IdType"),
        id_label: read_str(props, "IdLabel"),
        id_uuid: read_str(props, "IdUUID"),
        size: read_u64(props, "Size"),
        read_only: read_bool(props, "ReadOnly"),
        hint_system: read_bool(props, "HintSystem"),
        hint_ignore: read_bool(props, "HintIgnore"),
        drive: read_path(props, "Drive"),
        crypto_backing: read_path(props, "CryptoBackingDevice"),
        mdraid: read_path(props, "MDRaid"),
        mdraid_member: read_path(props, "MDRaidMember"),
        symlinks: read_byte_list(props, "Symlinks"),
        partition,
        table,
        filesystem: fs.is_some(),
        mount_points,
        swap: swap.is_some(),
        swap_active: match swap {
            Some(w) => read_bool(w, "Active"),
            None => false,
        },
        encrypted: enc.is_some(),
        cleartext: match enc {
            Some(e) => read_path(e, "CleartextDevice"),
            None => String::from_str("/"),
        },
        hint_encryption: match enc {
            Some(e) => read_str(e, "HintEncryptionType"),
            None => String::new(),
        },
        loopback: loop_dev.is_some(),
        backing_file: match loop_dev {
            Some(l) => read_bytes(l, "BackingFile"),
            None => String::new(),
        },
        loop_autoclear: match loop_dev {
            Some(l) => read_bool(l, "Autoclear"),
            None => false,
        },
        config,
    }
}

pub open spec fn raid_from(r: Raid, path: Seq<char>, p: Seq<(String, DValue)>) -> bool {
    &&& r.path@ == path
    &&& r.uuid@ == prop_str(p, "UUID"@)
    &&& r.name@ == prop_str(p, "Name"@)
    &&& r.level@ == prop_str(p, "Level"@)
    &&& r.size == prop_u64(p, "Size"@)
    &&& r.running == prop_bool(p, "Running"@)
    &&& r.degraded == (prop_u64(p, "Degraded"@) > 0)
    &&& r.sync_action@ == prop_str(p, "SyncAction"@)
    &&& r.sync_completed_bits == prop_f64_bits(p, "SyncCompleted"@)
    &&& crate::op::string_views(r.members@) == match prop(p, "ActiveDevices"@) {
        Some(v) => active_devices(v),
        None => Seq::empty(),
    }
}

pub fn parse_raid(path: &str, props: &Props) -> (r: Raid)
    ensures
        raid_from(r, path@, props@),
{
    let members = match find_prop(props, "ActiveDevices") {
        Some(v) => read_members(v),
        None => {
            let m: Vec<String> = Vec::new();
            assert(crate::op::string_views(m@) =~= Seq::<Seq<char>>::empty());
            m
        },
    };
    Raid {
        path: String::from_str(path),
        uuid: read_str(props, "UUID"),
        name: read_str(props, "Name"),
        level: read_str(props, "Level"),
        size: read_u64(props, "Size"),
        running: read_bool(props, "Running"),
        degraded: read_u64(props, "Degraded") > 0,
        sync_action: read_str(props, "SyncAction"),
        sync_completed_bits: read_f64_bits(props, "SyncCompleted"),
        members,
    }
}

pub open spec fn job_from(j: Job, path: Seq<char>, p: Seq<(String, DValue)>) -> bool {
    &&& j.path@ == path
    &&& j.operation@ == prop_str(p, "Operation"@)
    &&& j.progress_bits == prop_f64_bits(p, "Progress"@)
    &&& j.progress_valid == prop_bool(p, "ProgressValid"@)
    &&& j.cancelable == prop_bool(p, "Cancelable"@)
    &&& crate::op::string_views(j.objects@) == prop_paths(p, "Objects"@)
}

pub fn parse_job(path: &str, props: &Props) -> (j: Job)
    ensures
        job_from(j, path@, props@),
{
    Job {
        path: String::from_str(path),
        operation: read_str(props, "Operation"),
        progress_bits: read_f64_bits(props, "Progress"),
        progress_valid: read_bool(props, "ProgressValid"),
        cancelable: read_bool(props, "Cancelable"),
        objects: read_paths(props, "Objects"),
    }
}

/// The objects that carry an interface, in order.
pub open spec fn with_iface(objs: Seq<(String, Ifaces)>, name: Seq<char>) -> Seq<(String, Ifaces)>
    decreases objs.len(),
{
    if objs.len() == 0 {
        Seq::empty()
    } else {
        with_iface(objs.drop_last(), name) + if iface(objs.last().1@, name) is Some {
            seq![objs.last()]
        } else {
            Seq::empty()
        }
    }
}

/// The model is read object by object: a drive for each Drive interface, a
/// block for each Block, an array for each MDRaid and a job for each Job,
/// each list in the order of the objects.
pub open spec fn model_from(m: Model, objs: Seq<(String, Ifaces)>) -> bool {
    let ds = with_iface(objs, "org.freedesktop.UDisks2.Drive"@);
    let bs = with_iface(objs, "org.freedesktop.UDisks2.Block"@);
    let rs = with_iface(objs, "org.freedesktop.UDisks2.MDRaid"@);
    let js = with_iface(objs, "org.freedesktop.UDisks2.Job"@);
    &&& m.drives@.len() == ds.len()
    &&& forall|i: int|
        0 <= i < ds.len() ==> drive_from(
            #[trigger] m.drives@[i],
            ds[i].0@,
            iface(ds[i].1@, "org.freedesktop.UDisks2.Drive"@)->0,
            iface(ds[i].1@, "org.freedesktop.UDisks2.Drive.Ata"@),
            iface(ds[i].1@, "org.freedesktop.UDisks2.NVMe.Controller"@) is Some,
        )
    &&& m.blocks@.len() == bs.len()
    &&& forall|i: int|
        0 <= i < bs.len() ==> block_from(
            #[trigger] m.blocks@[i],
            bs[i].0@,
            iface(bs[i].1@, "org.freedesktop.UDisks2.Block"@)->0,
            bs[i].1@,
        )
    &&& m.raids@.len() == rs.len()
    &&& forall|i: int|
        0 <= i < rs.len() ==> raid_from(
            #[trigger] m.raids@[i],
            rs[i].0@,
            iface(rs[i].1@, "org.freedesktop.UDisks2.MDRaid"@)->0,
        )
    &&& m.jobs@.len() == js.len()
    &&& forall|i: int|
        0 <= i < js.len() ==> job_from(
            #[trigger] m.jobs@[i],
            js[i].0@,
            iface(js[i].1@, "org.freedesktop.UDisks2.Job"@)->0,
        )
}

pub fn parse_model(objects: &Vec<(String, Ifaces)>) -> (m: Model)
    ensures
        model_from(m, objects@),
{
    let mut m = Model { drives: Vec::new(), blocks: Vec::new(), raids: Vec::new(), jobs: Vec::new() };
    let mut i: usize = 0;
    while i < objects.len()
        invariant
            i <= objects@.len(),
            model_from(m, objects@.subrange(0, i as int)),
        decreases objects@.len() - i,
    {
        let ghost prefix = objects@.subrange(0, i as int);
        let ghost n = objects@.subrange(0, i + 1);
        assert(n.drop_last() =~= prefix);
        assert(n.last() == objects@[i as int]);
        let path = objects[i].0.as_str();
        let ifaces = &objects[i].1;
        let ghost m0 = m;
        match find_iface(ifaces, "org.freedesktop.UDisks2.Drive") {
            Some(props) => {
                let d = parse_drive(
                    path,
                    props,
                    find_iface(ifaces, "org.freedesktop.UDisks2.Drive.Ata"),
                    find_iface(ifaces, "org.freedesktop.UDisks2.NVMe.Controller"),
                );
                m.drives.push(d);
            },
            None => {},
        }
        match find_iface(ifaces, "org.freedesktop.UDisks2.Block") {
            Some(props) => {
                let b = parse_block(path, props, ifaces);
                m.blocks.push(b);
            },
            None => {},
        }
        match find_iface(ifaces, "org.freedesktop.UDisks2.MDRaid") {
            Some(props) => {
                let r = parse_raid(path, props);
                m.raids.push(r);
            },
            None => {},
        }
        match find_iface(ifaces, "org.freedesktop.UDisks2.Job") {
            Some(props) => {
                let j = parse_job(path, props);
                m.jobs.push(j);
            },
            None => {},
        }
        proof {
            let ds = with_iface(n, "org.freedesktop.UDisks2.Drive"@);
            let bs = with_iface(n, "org.freedesktop.UDisks2.Block"@);
            let rs = with_iface(n, "org.freedesktop.UDisks2.MDRaid"@);
            let js = with_iface(n, "org.freedesktop.UDisks2.Job"@);
            assert forall|k: int| 0 <= k < ds.len() implies drive_from(
                #[trigger] m.drives@[k],
                ds[k].0@,
                iface(ds[k].1@, "org.freedesktop.UDisks2.Drive"@)->0,
                iface(ds[k].1@, "org.freedesktop.UDisks2.Drive.Ata"@),
                iface(ds[k].1@, "org.freedesktop.UDisks2.NVMe.Controller"@) is Some,
            ) by {
                let d0 = with_iface(prefix, "org.freedesktop.UDisks2.Drive"@);
                if k < d0.len() {
                    assert(ds[k] == d0[k]);
                    assert(m.drives@[k] == m0.drives@[k]);
                }
            }
            assert forall|k: int| 0 <= k < bs.len() implies block_from(
                #[trigger] m.blocks@[k],
                bs[k].0@,
                iface(bs[k].1@, "org.freedesktop.UDisks2.Block"@)->0,
                bs[k].1@,
            ) by {
                let b0 = with_iface(prefix, "org.freedesktop.UDisks2.Block"@);
                if k < b0.len() {
                    assert(bs[k] == b0[k]);
                    assert(m.blocks@[k] == m0.blocks@[k]);
                }
            }
            assert forall|k: int| 0 <= k < rs.len() implies raid_from(
                #[trigger] m.raids@[k],
                rs[k].0@,
                iface(rs[k].1@, "org.freedesktop.UDisks2.MDRaid"@)->0,
            ) by {
                let r0 = with_iface(prefix, "org.freedesktop.UDisks2.MDRaid"@);
                if k < r0.len() {
                    assert(rs[k] == r0[k]);
                    assert(m.raids@[k] == m0.raids@[k]);
                }
            }
            assert forall|k: int| 0 <= k < js.len() implies job_from(
                #[trigger] m.jobs@[k],
                js[k].0@,
                iface(js[k].1@, "org.freedesktop.UDisks2.Job"@)->0,
            ) by {
                let j0 = with_iface(prefix, "org.freedesktop.UDisks2.Job"@);
                if k < j0.len() {
                    assert(js[k] == j0[k]);
                    assert(m.jobs@[k] == m0.jobs@[k]);
                }
            }
        }
        i = i + 1;
    }
    assert(objects@.subrange(0, objects@.len() as int) =~= objects@);
    m
}

} // verus!
