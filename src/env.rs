//! Environments: frames of bindings linked to their parents. Frames live in an
//! arena and refer to each other by handle, child to parent only, so the graph
//! has no cycles. Frames stay in the arena for the life of the environment.
use vstd::prelude::*;

use crate::error::{Fault, SatukitanError};
use crate::value::{copy_value, primitive_name, BuiltinFunction, Primitive, Val, Value};

verus! {

/// One environment frame: its bindings, oldest first, and the handle of its
/// parent frame.
pub struct Frame {
    pub bindings: Vec<(String, Value)>,
    pub parent: Option<usize>,
}

/// The scope tree: an arena of frames addressed by handle. A frame only ever
/// refers to its parent, never to a child. Frames live as long as the
/// environment. `next_id` numbers the closures made in it.
pub struct Environment {
    pub frames: Vec<Frame>,
    pub next_id: usize,
}

/// The model of a frame.
pub struct FrameModel {
    pub vars: Map<Seq<char>, Val>,
    pub parent: Option<nat>,
}

/// The model of the scope tree.
pub struct Scopes {
    pub frames: Seq<FrameModel>,
    pub next_id: nat,
}

/// The mapping that a list of bindings denotes: a later binding of a name
/// hides an earlier one.
pub open spec fn bindings_map(b: Seq<(Seq<char>, Val)>) -> Map<Seq<char>, Val>
    decreases b.len(),
{
    if b.len() == 0 {
        Map::empty()
    } else {
        bindings_map(b.drop_last()).insert(b.last().0, b.last().1)
    }
}

pub open spec fn bindings_view(b: Seq<(String, Value)>) -> Seq<(Seq<char>, Val)> {
    b.map_values(|p: (String, Value)| (p.0@, p.1@))
}

impl Frame {
    pub open spec fn view(&self) -> FrameModel {
        FrameModel {
            vars: bindings_map(bindings_view(self.bindings@)),
            parent: match self.parent {
                Some(p) => Some(p as nat),
                None => None,
            },
        }
    }
}

pub open spec fn frames_view(f: Seq<Frame>) -> Seq<FrameModel> {
    f.map_values(|x: Frame| x@)
}

impl Environment {
    pub open spec fn view(&self) -> Scopes {
        Scopes { frames: frames_view(self.frames@), next_id: self.next_id as nat }
    }
}

/// A scope tree of one empty root frame.
pub open spec fn root_scopes() -> Scopes {
    Scopes { frames: seq![FrameModel { vars: Map::empty(), parent: None }], next_id: 0 }
}

/// Looks `name` up from frame `f` outward along parent links.
pub open spec fn lookup(frames: Seq<FrameModel>, f: nat, name: Seq<char>) -> Option<Val>
    decreases f,
{
    if f >= frames.len() {
        None
    } else if frames[f as int].vars.contains_key(name) {
        Some(frames[f as int].vars[name])
    } else {
        match frames[f as int].parent {
            Some(p) => if p < f {
                lookup(frames, p, name)
            } else {
                None
            },
            None => None,
        }
    }
}

/// The innermost frame, from `f` outward, that binds `name`.
pub open spec fn holder(frames: Seq<FrameModel>, f: nat, name: Seq<char>) -> Option<nat>
    decreases f,
{
    if f >= frames.len() {
        None
    } else if frames[f as int].vars.contains_key(name) {
        Some(f)
    } else {
        match frames[f as int].parent {
            Some(p) => if p < f {
                holder(frames, p, name)
            } else {
                None
            },
            None => None,
        }
    }
}

/// Binds `name` to `v` in frame `f`, replacing a binding of it there.
pub open spec fn define_in(s: Scopes, f: nat, name: Seq<char>, v: Val) -> Scopes {
    Scopes {
        frames: s.frames.update(
            f as int,
            FrameModel { vars: s.frames[f as int].vars.insert(name, v), ..s.frames[f as int] },
        ),
        ..s
    }
}

proof fn lemma_last_match(b: Seq<(Seq<char>, Val)>, i: int, name: Seq<char>)
    requires
        0 <= i < b.len(),
        b[i].0 == name,
        forall|k: int| i < k < b.len() ==> b[k].0 != name,
    ensures
        bindings_map(b).contains_key(name),
        bindings_map(b)[name] == b[i].1,
    decreases b.len(),
{
    if i < b.len() - 1 {
        lemma_last_match(b.drop_last(), i, name);
    }
}

proof fn lemma_no_match(b: Seq<(Seq<char>, Val)>, name: Seq<char>)
    requires
        forall|k: int| 0 <= k < b.len() ==> b[k].0 != name,
    ensures
        !bindings_map(b).contains_key(name),
    decreases b.len(),
{
    if b.len() > 0 {
        lemma_no_match(b.drop_last(), name);
    }
}

proof fn lemma_replace_last_match(b: Seq<(Seq<char>, Val)>, i: int, name: Seq<char>, v: Val)
    requires
        0 <= i < b.len(),
        b[i].0 == name,
        forall|k: int| i < k < b.len() ==> b[k].0 != name,
    ensures
        bindings_map(b.update(i, (name, v))) == bindings_map(b).insert(name, v),
    decreases b.len(),
{
    let b2 = b.update(i, (name, v));
    if i == b.len() - 1 {
        assert(b2.drop_last() =~= b.drop_last());
        assert(bindings_map(b2) =~= bindings_map(b).insert(name, v));
    } else {
        lemma_replace_last_match(b.drop_last(), i, name, v);
        assert(b2.drop_last() =~= b.drop_last().update(i, (name, v)));
        assert(bindings_map(b2) =~= bindings_map(b).insert(name, v));
    }
}

/// The index of the last binding of `name` in `b`.
fn find_binding(b: &Vec<(String, Value)>, name: &String) -> (r: Option<usize>)
    ensures
        r matches Some(i) ==> i < b.len() && b@[i as int].0@ == name@ && bindings_map(
            bindings_view(b@),
        ).contains_key(name@) && bindings_map(bindings_view(b@))[name@] == b@[i as int].1@
            && forall|k: int| i < k < b.len() ==> b@[k].0@ != name@,
        r is None ==> !bindings_map(bindings_view(b@)).contains_key(name@),
{
    let ghost bv = bindings_view(b@);
    let mut j: usize = b.len();
    while j > 0
        invariant
            j <= b.len(),
            bv == bindings_view(b@),
            forall|k: int| j <= k < b.len() ==> b@[k].0@ != name@,
        decreases j,
    {
        if b[j - 1].0.eq(name) {
            proof {
                lemma_last_match(bv, j - 1, name@);
            }
            return Some(j - 1);
        }
        j -= 1;
    }
    proof {
        lemma_no_match(bv, name@);
    }
    None
}

impl Environment {
    /// A scope tree holding one empty root frame, handle 0.
    pub fn new() -> (r: Self)
        ensures
            r@ == root_scopes(),
            r.frames.len() == 1,
    {
        let mut frames: Vec<Frame> = Vec::new();
        frames.push(Frame { bindings: Vec::new(), parent: None });
        proof {
            assert(bindings_view(frames@[0].bindings@) =~= Seq::empty());
            assert(frames_view(frames@) =~= root_scopes().frames);
        }
        Environment { frames, next_id: 0 }
    }

    /// Adds an empty frame whose parent is `parent`, and returns its handle.
    pub fn with_parent(&mut self, parent: usize) -> (r: usize)
        requires
            old(self).frames.len() < usize::MAX,
        ensures
            r == old(self).frames.len(),
            final(self)@.frames == old(self)@.frames.push(
                FrameModel { vars: Map::empty(), parent: Some(parent as nat) },
            ),
            final(self)@.next_id == old(self)@.next_id,
            final(self).frames.len() == old(self).frames.len() + 1,
    {
        let r = self.frames.len();
        self.frames.push(Frame { bindings: Vec::new(), parent: Some(parent) });
        proof {
            assert(bindings_view(self.frames@[r as int].bindings@) =~= Seq::empty());
            assert(frames_view(self.frames@) =~= frames_view(old(self).frames@).push(
                FrameModel { vars: Map::empty(), parent: Some(parent as nat) },
            ));
        }
        r
    }

    /// Binds `name` to `value` in frame `frame`, replacing a binding of it there.
    pub fn define(&mut self, frame: usize, name: String, value: Value)
        requires
            frame < old(self).frames.len(),
        ensures
            final(self)@ == define_in(old(self)@, frame as nat, name@, value@),
            final(self).frames.len() == old(self).frames.len(),
    {
        let ghost nv = name@;
        let ghost vv = value@;
        let mut f = Frame { bindings: Vec::new(), parent: None };
        std::mem::swap(&mut f, &mut self.frames[frame]);
        let ghost old_b = bindings_view(f.bindings@);
        match find_binding(&f.bindings, &name) {
            Some(i) => {
                f.bindings.set(i, (name, value));
                proof {
                    lemma_replace_last_match(old_b, i as int, nv, vv);
                    assert(bindings_view(f.bindings@) =~= old_b.update(i as int, (nv, vv)));
                }
            },
            None => {
                f.bindings.push((name, value));
                proof {
                    assert(bindings_view(f.bindings@).drop_last() =~= old_b);
                }
            },
        }
        self.frames.set(frame, f);
        proof {
            assert(bindings_map(bindings_view(f.bindings@)) =~= bindings_map(old_b).insert(nv, vv));
            assert(frames_view(self.frames@) =~= define_in(old(self)@, frame as nat, nv, vv).frames);
        }
    }

    /// Installs a primitive operation in the root frame under its name.
    pub fn define_builtin(&mut self, op: Primitive)
        requires
            old(self).frames.len() > 0,
        ensures
            final(self)@ == define_in(old(self)@, 0, primitive_name(op), Val::Builtin(op)),
            final(self).frames.len() == old(self).frames.len(),
    {
        let name = String::from_str(op.name());
        self.define(0, name, Value::Builtin(BuiltinFunction::new(op)));
    }

    /// The value bound to `name`, looked up from frame `frame` outward.
    pub fn get(&self, frame: usize, name: &String) -> (r: Option<Value>)
        ensures
            r is Some <==> lookup(self@.frames, frame as nat, name@) is Some,
            r matches Some(v) ==> lookup(self@.frames, frame as nat, name@) == Some(v@),
    {
        let ghost fr = self@.frames;
        let mut cur = frame;
        loop
            invariant
                fr == self@.frames,
                lookup(fr, cur as nat, name@) == lookup(fr, frame as nat, name@),
            decreases cur,
        {
            if cur >= self.frames.len() {
                return None;
            }
            let fm = &self.frames[cur];
            match find_binding(&fm.bindings, name) {
                Some(i) => {
                    return Some(copy_value(&fm.bindings[i].1));
                },
                None => {},
            }
            match fm.parent {
                Some(p) => {
                    if p < cur {
                        cur = p;
                    } else {
                        return None;
                    }
                },
                None => {
                    return None;
                },
            }
        }
    }

    /// Rebinds `name` in the innermost frame, from `frame` outward, that binds
    /// it; fails when no frame on the way binds it.
    pub fn assign(&mut self, frame: usize, name: String, value: Value) -> (r: Result<(), SatukitanError>)
        ensures
            holder(old(self)@.frames, frame as nat, name@) matches Some(h) ==> r is Ok
                && final(self)@ == define_in(old(self)@, h, name@, value@),
            holder(old(self)@.frames, frame as nat, name@) is None ==> (r matches Err(e)
                && e@ == Fault::UndefinedSymbol(name@) && final(self)@ == old(self)@),
    {
        let ghost fr = self@.frames;
        let mut cur = frame;
        loop
            invariant
                fr == self@.frames,
                *self == *old(self),
                holder(fr, cur as nat, name@) == holder(fr, frame as nat, name@),
            decreases cur,
        {
            if cur >= self.frames.len() {
                return Err(SatukitanError::UndefinedSymbol(name));
            }
            match find_binding(&self.frames[cur].bindings, &name) {
                Some(_) => {
                    self.define(cur, name, value);
                    return Ok(());
                },
                None => {},
            }
            match self.frames[cur].parent {
                Some(p) => {
                    if p < cur {
                        cur = p;
                    } else {
                        return Err(SatukitanError::UndefinedSymbol(name));
                    }
                },
                None => {
                    return Err(SatukitanError::UndefinedSymbol(name));
                },
            }
        }
    }
}

impl Default for Environment {
    fn default() -> (r: Self)
        ensures
            r@ == root_scopes(),
    {
        Environment::new()
    }
}

} // verus!
