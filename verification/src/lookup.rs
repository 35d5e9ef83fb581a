//! Lookups in the source file and the global symbols: the ports and
//! params of an instantiated construct, the type of a struct field, the
//! struct a destructuring `let` reads, and a `function` by name.
use vstd::prelude::*;
use crate::ast::{
    Expr, ExprKind, FunctionDecl, Item, ModuleBodyItem, ParamDecl, PortDecl, StructDecl,
    StructField, Symbol, TypeExpr,
};
use crate::sim::SimCodegen;
use crate::text::str_eq;

verus! {

/// The name, ports and params of an item that can be instantiated.
pub open spec fn item_construct(it: Item) -> Option<(Seq<char>, Seq<PortDecl>, Seq<ParamDecl>)> {
    match it {
        Item::Module(m) => Some((m.name.name@, m.ports@, m.params@)),
        Item::Fsm(c) => Some((c.name.name@, c.ports@, c.params@)),
        Item::Fifo(c) => Some((c.name.name@, c.ports@, c.params@)),
        Item::Ram(c) => Some((c.name.name@, c.ports@, c.params@)),
        Item::Cam(c) => Some((c.name.name@, c.ports@, c.params@)),
        Item::Counter(c) => Some((c.name.name@, c.ports@, c.params@)),
        Item::Arbiter(c) => Some((c.name.name@, c.ports@, c.params@)),
        Item::Regfile(c) => Some((c.name.name@, c.ports@, c.params@)),
        Item::Pipeline(c) => Some((c.name.name@, c.ports@, c.params@)),
        Item::Linklist(c) => Some((c.name.name@, c.ports@, c.params@)),
        Item::Synchronizer(c) => Some((c.name.name@, c.ports@, c.params@)),
        Item::Clkgate(c) => Some((c.name.name@, c.ports@, c.params@)),
        _ => None,
    }
}

/// The first item from index `i` on that declares a construct named `n`.
pub open spec fn find_construct(items: Seq<Item>, n: Seq<char>, i: int) -> Option<(Seq<PortDecl>, Seq<ParamDecl>)>
    decreases items.len() - i,
{
    if i < 0 || i >= items.len() {
        None
    } else {
        match item_construct(items[i]) {
            Some((name, ports, params)) => if name == n {
                Some((ports, params))
            } else {
                find_construct(items, n, i + 1)
            },
            None => find_construct(items, n, i + 1),
        }
    }
}

/// The global symbol named `n` (a later entry overrides an earlier one).
pub open spec fn global_symbol(globals: Seq<(String, Symbol)>, n: Seq<char>) -> Option<Symbol>
    decreases globals.len(),
{
    if globals.len() == 0 {
        None
    } else if globals.last().0@ == n {
        Some(globals.last().1)
    } else {
        global_symbol(globals.drop_last(), n)
    }
}

/// The ports of the construct named `n`: from the file's items, else from
/// a module symbol; `None` where neither declares it.
pub open spec fn inst_ports(items: Seq<Item>, globals: Seq<(String, Symbol)>, n: Seq<char>) -> Option<Seq<PortDecl>> {
    match find_construct(items, n, 0) {
        Some((ports, _)) => Some(ports),
        None => match global_symbol(globals, n) {
            Some(Symbol::Module(info)) => Some(info.ports@),
            _ => None,
        },
    }
}

/// The params of the construct named `n`, found as its ports are.
pub open spec fn inst_params(items: Seq<Item>, globals: Seq<(String, Symbol)>, n: Seq<char>) -> Option<Seq<ParamDecl>> {
    match find_construct(items, n, 0) {
        Some((_, params)) => Some(params),
        None => match global_symbol(globals, n) {
            Some(Symbol::Module(info)) => Some(info.params@),
            _ => None,
        },
    }
}

/// The type of the first field named `f` from index `i` on.
pub open spec fn field_type(fs: Seq<StructField>, f: Seq<char>, i: int) -> Option<TypeExpr>
    decreases fs.len() - i,
{
    if i < 0 || i >= fs.len() {
        None
    } else if fs[i].name.name@ == f {
        Some(fs[i].ty)
    } else {
        field_type(fs, f, i + 1)
    }
}

/// The type of field `f` of the first struct named `sn` (from index `i`
/// on) that has it.
pub open spec fn structs_field_type(ss: Seq<StructDecl>, sn: Seq<char>, f: Seq<char>, i: int) -> Option<TypeExpr>
    decreases ss.len() - i,
{
    if i < 0 || i >= ss.len() {
        None
    } else {
        match (if ss[i].name.name@ == sn {
            field_type(ss[i].fields@, f, 0)
        } else {
            None
        }) {
            Some(t) => Some(t),
            None => structs_field_type(ss, sn, f, i + 1),
        }
    }
}

/// What one item contributes to a struct-field lookup.
pub open spec fn item_field_type(it: Item, sn: Seq<char>, f: Seq<char>) -> Option<TypeExpr> {
    match it {
        Item::Struct(s) => if s.name.name@ == sn {
            field_type(s.fields@, f, 0)
        } else {
            None
        },
        Item::Package(p) => structs_field_type(p.structs@, sn, f, 0),
        _ => None,
    }
}

/// The type of field `f` of struct `sn`, from file-scope and package
/// structs in file order (from item `i` on).
pub open spec fn struct_field_type(items: Seq<Item>, sn: Seq<char>, f: Seq<char>, i: int) -> Option<TypeExpr>
    decreases items.len() - i,
{
    if i < 0 || i >= items.len() {
        None
    } else {
        match item_field_type(items[i], sn, f) {
            Some(t) => Some(t),
            None => struct_field_type(items, sn, f, i + 1),
        }
    }
}

/// The struct name of a named type.
pub open spec fn named_type(t: TypeExpr) -> Option<Seq<char>> {
    match t {
        TypeExpr::Named(id) => Some(id.name@),
        _ => None,
    }
}

/// The struct type of the first port named `n` (from index `i` on) whose
/// type is a struct.
pub open spec fn port_struct(ports: Seq<PortDecl>, n: Seq<char>, i: int) -> Option<Seq<char>>
    decreases ports.len() - i,
{
    if i < 0 || i >= ports.len() {
        None
    } else {
        match (if ports[i].name.name@ == n {
            named_type(ports[i].ty)
        } else {
            None
        }) {
            Some(s) => Some(s),
            None => port_struct(ports, n, i + 1),
        }
    }
}

/// The struct type a body item declares for `n`, if it declares one.
pub open spec fn item_struct(it: ModuleBodyItem, n: Seq<char>) -> Option<Seq<char>> {
    match it {
        ModuleBodyItem::RegDecl(r) => if r.name.name@ == n {
            named_type(r.ty)
        } else {
            None
        },
        ModuleBodyItem::WireDecl(w) => if w.name.name@ == n {
            named_type(w.ty)
        } else {
            None
        },
        ModuleBodyItem::LetBinding(l) => if l.name.name@ == n {
            match l.ty {
                Some(t) => named_type(t),
                None => None,
            }
        } else {
            None
        },
        _ => None,
    }
}

pub open spec fn body_struct(body: Seq<ModuleBodyItem>, n: Seq<char>, i: int) -> Option<Seq<char>>
    decreases body.len() - i,
{
    if i < 0 || i >= body.len() {
        None
    } else {
        match item_struct(body[i], n) {
            Some(s) => Some(s),
            None => body_struct(body, n, i + 1),
        }
    }
}

/// The struct a destructuring `let` reads: a struct literal's type, or
/// the struct type of the port, register, wire or `let` it names.
pub open spec fn rhs_struct(e: Expr, ports: Seq<PortDecl>, body: Seq<ModuleBodyItem>) -> Option<Seq<char>> {
    match e.kind {
        ExprKind::StructLiteral(name, _) => Some(name.name@),
        ExprKind::Ident(n) => match port_struct(ports, n@, 0) {
            Some(s) => Some(s),
            None => body_struct(body, n@, 0),
        },
        _ => None,
    }
}

/// The first `function` named `n` of a list, from index `i` on.
pub open spec fn fn_named(fs: Seq<FunctionDecl>, n: Seq<char>, i: int) -> Option<FunctionDecl>
    decreases fs.len() - i,
{
    if i < 0 || i >= fs.len() {
        None
    } else if fs[i].name.name@ == n {
        Some(fs[i])
    } else {
        fn_named(fs, n, i + 1)
    }
}

/// The first `function` named `n` of a module body, from index `i` on.
pub open spec fn body_fn_named(body: Seq<ModuleBodyItem>, n: Seq<char>, i: int) -> Option<FunctionDecl>
    decreases body.len() - i,
{
    if i < 0 || i >= body.len() {
        None
    } else {
        match body[i] {
            ModuleBodyItem::Function(f) => if f.name.name@ == n {
                Some(f)
            } else {
                body_fn_named(body, n, i + 1)
            },
            _ => body_fn_named(body, n, i + 1),
        }
    }
}

pub open spec fn item_fn_named(it: Item, n: Seq<char>) -> Option<FunctionDecl> {
    match it {
        Item::Function(f) => if f.name.name@ == n {
            Some(f)
        } else {
            None
        },
        Item::Package(p) => fn_named(p.functions@, n, 0),
        Item::Module(m) => body_fn_named(m.body@, n, 0),
        _ => None,
    }
}

/// The first `function` named `n` in the file, from item `i` on:
/// top-level, in a package, or in a module body.
pub open spec fn find_fn(items: Seq<Item>, n: Seq<char>, i: int) -> Option<FunctionDecl>
    decreases items.len() - i,
{
    if i < 0 || i >= items.len() {
        None
    } else {
        match item_fn_named(items[i], n) {
            Some(f) => Some(f),
            None => find_fn(items, n, i + 1),
        }
    }
}

fn item_parts<'b>(it: &'b Item) -> (r: Option<(&'b String, &'b Vec<PortDecl>, &'b Vec<ParamDecl>)>)
    ensures
        match r {
            Some((n, ps, qs)) => item_construct(*it) == Some((n@, ps@, qs@)),
            None => item_construct(*it) is None,
        },
{
    match it {
        Item::Module(m) => Some((&m.name.name, &m.ports, &m.params)),
        Item::Fsm(c) => Some((&c.name.name, &c.ports, &c.params)),
        Item::Fifo(c) => Some((&c.name.name, &c.ports, &c.params)),
        Item::Ram(c) => Some((&c.name.name, &c.ports, &c.params)),
        Item::Cam(c) => Some((&c.name.name, &c.ports, &c.params)),
        Item::Counter(c) => Some((&c.name.name, &c.ports, &c.params)),
        Item::Arbiter(c) => Some((&c.name.name, &c.ports, &c.params)),
        Item::Regfile(c) => Some((&c.name.name, &c.ports, &c.params)),
        Item::Pipeline(c) => Some((&c.name.name, &c.ports, &c.params)),
        Item::Linklist(c) => Some((&c.name.name, &c.ports, &c.params)),
        Item::Synchronizer(c) => Some((&c.name.name, &c.ports, &c.params)),
        Item::Clkgate(c) => Some((&c.name.name, &c.ports, &c.params)),
        _ => None,
    }
}

/// The first construct named `n` among `items`.
fn find_construct_exec<'b>(items: &'b Vec<Item>, n: &str) -> (r: Option<(&'b Vec<PortDecl>, &'b Vec<ParamDecl>)>)
    ensures
        match r {
            Some((ps, qs)) => find_construct(items@, n@, 0) == Some((ps@, qs@)),
            None => find_construct(items@, n@, 0) is None,
        },
{
    let mut i: usize = 0;
    while i < items.len()
        invariant
            i <= items@.len(),
            find_construct(items@, n@, 0) == find_construct(items@, n@, i as int),
        decreases items@.len() - i,
    {
        match item_parts(&items[i]) {
            Some((name, ps, qs)) => {
                if str_eq(name.as_str(), n) {
                    return Some((ps, qs));
                }
            },
            None => {},
        }
        i = i + 1;
    }
    None
}

/// The global symbol named `n`.
fn global_symbol_exec<'b>(globals: &'b Vec<(String, Symbol)>, n: &str) -> (r: Option<&'b Symbol>)
    ensures
        match r {
            Some(sym) => global_symbol(globals@, n@) == Some(*sym),
            None => global_symbol(globals@, n@) is None,
        },
{
    let mut i: usize = globals.len();
    proof {
        assert(globals@.take(i as int) =~= globals@);
    }
    while i > 0
        invariant
            i <= globals@.len(),
            global_symbol(globals@, n@) == global_symbol(globals@.take(i as int), n@),
        decreases i,
    {
        proof {
            assert(globals@.take(i as int).drop_last() =~= globals@.take(i - 1));
            assert(globals@.take(i as int).last() == globals@[i - 1]);
        }
        i = i - 1;
        if str_eq(globals[i].0.as_str(), n) {
            return Some(&globals[i].1);
        }
    }
    None
}

fn field_type_exec<'b>(fs: &'b Vec<StructField>, f: &str) -> (r: Option<&'b TypeExpr>)
    ensures
        match r {
            Some(t) => field_type(fs@, f@, 0) == Some(*t),
            None => field_type(fs@, f@, 0) is None,
        },
{
    let mut i: usize = 0;
    while i < fs.len()
        invariant
            i <= fs@.len(),
            field_type(fs@, f@, 0) == field_type(fs@, f@, i as int),
        decreases fs@.len() - i,
    {
        if str_eq(fs[i].name.name.as_str(), f) {
            return Some(&fs[i].ty);
        }
        i = i + 1;
    }
    None
}

fn structs_field_type_exec<'b>(ss: &'b Vec<StructDecl>, sn: &str, f: &str) -> (r: Option<&'b TypeExpr>)
    ensures
        match r {
            Some(t) => structs_field_type(ss@, sn@, f@, 0) == Some(*t),
            None => structs_field_type(ss@, sn@, f@, 0) is None,
        },
{
    let mut i: usize = 0;
    while i < ss.len()
        invariant
            i <= ss@.len(),
            structs_field_type(ss@, sn@, f@, 0) == structs_field_type(ss@, sn@, f@, i as int),
        decreases ss@.len() - i,
    {
        if str_eq(ss[i].name.name.as_str(), sn) {
            if let Some(t) = field_type_exec(&ss[i].fields, f) {
                return Some(t);
            }
        }
        i = i + 1;
    }
    None
}

fn item_struct_exec(it: &ModuleBodyItem, n: &str) -> (r: Option<String>)
    ensures
        match r {
            Some(s) => item_struct(*it, n@) == Some(s@),
            None => item_struct(*it, n@) is None,
        },
{
    let ty = match it {
        ModuleBodyItem::RegDecl(r) => if str_eq(r.name.name.as_str(), n) {
            Some(&r.ty)
        } else {
            None
        },
        ModuleBodyItem::WireDecl(w) => if str_eq(w.name.name.as_str(), n) {
            Some(&w.ty)
        } else {
            None
        },
        ModuleBodyItem::LetBinding(l) => if str_eq(l.name.name.as_str(), n) {
            match &l.ty {
                Some(t) => Some(t),
                None => None,
            }
        } else {
            None
        },
        _ => None,
    };
    match ty {
        Some(TypeExpr::Named(id)) => Some(id.name.clone()),
        _ => None,
    }
}

fn fn_named_exec<'b>(fs: &'b Vec<FunctionDecl>, n: &str) -> (r: Option<&'b FunctionDecl>)
    ensures
        match r {
            Some(f) => fn_named(fs@, n@, 0) == Some(*f),
            None => fn_named(fs@, n@, 0) is None,
        },
{
    let mut i: usize = 0;
    while i < fs.len()
        invariant
            i <= fs@.len(),
            fn_named(fs@, n@, 0) == fn_named(fs@, n@, i as int),
        decreases fs@.len() - i,
    {
        if str_eq(fs[i].name.name.as_str(), n) {
            return Some(&fs[i]);
        }
        i = i + 1;
    }
    None
}

fn body_fn_named_exec<'b>(body: &'b Vec<ModuleBodyItem>, n: &str) -> (r: Option<&'b FunctionDecl>)
    ensures
        match r {
            Some(f) => body_fn_named(body@, n@, 0) == Some(*f),
            None => body_fn_named(body@, n@, 0) is None,
        },
{
    let mut i: usize = 0;
    while i < body.len()
        invariant
            i <= body@.len(),
            body_fn_named(body@, n@, 0) == body_fn_named(body@, n@, i as int),
        decreases body@.len() - i,
    {
        if let ModuleBodyItem::Function(f) = &body[i] {
            if str_eq(f.name.name.as_str(), n) {
                return Some(f);
            }
        }
        i = i + 1;
    }
    None
}

/// The first `function` named `name` in the file, in the scopes whose
/// functions `VFunctions.h` holds: top-level items, package bodies and
/// module bodies, in file order.
pub fn find_function_decl<'s>(src: &'s crate::ast::SourceFile, name: &str) -> (r: Option<&'s FunctionDecl>)
    ensures
        match r {
            Some(f) => find_fn(src.items@, name@, 0) == Some(*f),
            None => find_fn(src.items@, name@, 0) is None,
        },
{
    let items = &src.items;
    let mut i: usize = 0;
    while i < items.len()
        invariant
            i <= items@.len(),
            items == &src.items,
            find_fn(items@, name@, 0) == find_fn(items@, name@, i as int),
        decreases items@.len() - i,
    {
        let found = match &items[i] {
            Item::Function(f) => if str_eq(f.name.name.as_str(), name) {
                Some(f)
            } else {
                None
            },
            Item::Package(p) => fn_named_exec(&p.functions, name),
            Item::Module(m) => body_fn_named_exec(&m.body, name),
            _ => None,
        };
        if let Some(f) = found {
            return Some(f);
        }
        i = i + 1;
    }
    None
}

impl<'a> SimCodegen<'a> {
    /// The ports of the construct an instance names: the first item of the
    /// file that declares it, else a module symbol of that name; `None`
    /// (no ports) where neither does.
    pub fn lookup_inst_ports(&self, module_name: &str) -> (r: Option<&'a Vec<PortDecl>>)
        ensures
            match r {
                Some(ps) => inst_ports(self.source.items@, self.symbols.globals@, module_name@) == Some(ps@),
                None => inst_ports(self.source.items@, self.symbols.globals@, module_name@) is None,
            },
    {
        match find_construct_exec(&self.source.items, module_name) {
            Some((ps, _)) => Some(ps),
            None => match global_symbol_exec(&self.symbols.globals, module_name) {
                Some(Symbol::Module(info)) => Some(&info.ports),
                _ => None,
            },
        }
    }

    /// The params of the construct an instance names, found as its ports
    /// are.
    pub fn lookup_inst_params(&self, module_name: &str) -> (r: Option<&'a Vec<ParamDecl>>)
        ensures
            match r {
                Some(qs) => inst_params(self.source.items@, self.symbols.globals@, module_name@) == Some(qs@),
                None => inst_params(self.source.items@, self.symbols.globals@, module_name@) is None,
            },
    {
        match find_construct_exec(&self.source.items, module_name) {
            Some((_, qs)) => Some(qs),
            None => match global_symbol_exec(&self.symbols.globals, module_name) {
                Some(Symbol::Module(info)) => Some(&info.params),
                _ => None,
            },
        }
    }

    /// The declared type of field `field_name` of struct `struct_name`,
    /// from file-scope and package structs in file order.
    pub fn lookup_struct_field_ty(&self, struct_name: &str, field_name: &str) -> (r: Option<&'a TypeExpr>)
        ensures
            match r {
                Some(t) => struct_field_type(self.source.items@, struct_name@, field_name@, 0) == Some(*t),
                None => struct_field_type(self.source.items@, struct_name@, field_name@, 0) is None,
            },
    {
        let items = &self.source.items;
        let mut i: usize = 0;
        while i < items.len()
            invariant
                i <= items@.len(),
                items == &self.source.items,
                struct_field_type(items@, struct_name@, field_name@, 0) == struct_field_type(
                    items@,
                    struct_name@,
                    field_name@,
                    i as int,
                ),
            decreases items@.len() - i,
        {
            let found = match &items[i] {
                Item::Struct(sd) => if str_eq(sd.name.name.as_str(), struct_name) {
                    field_type_exec(&sd.fields, field_name)
                } else {
                    None
                },
                Item::Package(p) => structs_field_type_exec(&p.structs, struct_name, field_name),
                _ => None,
            };
            if let Some(t) = found {
                return Some(t);
            }
            i = i + 1;
        }
        None
    }

    /// The struct a destructuring `let` reads, where sim codegen can tell:
    /// a struct literal's type, or the struct type of the port, register,
    /// wire or `let` the right-hand side names.
    #[verifier::loop_isolation(false)]
    pub fn infer_rhs_struct_name(&self, e: &Expr, ports: &[PortDecl], body: &[ModuleBodyItem]) -> (r:
        Option<String>)
        ensures
            match r {
                Some(s) => rhs_struct(*e, ports@, body@) == Some(s@),
                None => rhs_struct(*e, ports@, body@) is None,
            },
    {
        match &e.kind {
            ExprKind::StructLiteral(name, _) => Some(name.name.clone()),
            ExprKind::Ident(n) => {
                let mut i: usize = 0;
                while i < ports.len()
                    invariant
                        i <= ports@.len(),
                        port_struct(ports@, n@, 0) == port_struct(ports@, n@, i as int),
                    decreases ports@.len() - i,
                {
                    if str_eq(ports[i].name.name.as_str(), n.as_str()) {
                        if let TypeExpr::Named(sn) = &ports[i].ty {
                            return Some(sn.name.clone());
                        }
                    }
                    i = i + 1;
                }
                let mut j: usize = 0;
                while j < body.len()
                    invariant
                        j <= body@.len(),
                        port_struct(ports@, n@, 0) is None,
                        body_struct(body@, n@, 0) == body_struct(body@, n@, j as int),
                    decreases body@.len() - j,
                {
                    if let Some(sn) = item_struct_exec(&body[j], n.as_str()) {
                        return Some(sn);
                    }
                    j = j + 1;
                }
                None
            },
            _ => None,
        }
    }
}

} // verus!
