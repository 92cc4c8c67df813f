use vstd::prelude::*;
use crate::context::MAX_POINT_LIGHTS;
use crate::resource::MainLight;
use crate::scene::{Handle, Light, LightKind, Scene, object_lights};

verus! {

/// The light components of the reachable objects of `hs`, in discovery order:
/// object by object, and within an object in component order.
pub open spec fn light_seq(scene: &Scene, hs: Seq<Handle>) -> Seq<Light>
    decreases hs.len(),
{
    if hs.len() == 0 {
        Seq::empty()
    } else {
        let prev = light_seq(scene, hs.drop_last());
        match scene.reachable(hs.last()) {
            Some(o) => prev + object_lights(o.components@),
            None => prev,
        }
    }
}

/// The first directional light of `ls`, or the built-in one.
pub open spec fn main_light_of(ls: Seq<Light>) -> MainLight
    decreases ls.len(),
{
    if ls.len() == 0 {
        MainLight::Default
    } else if ls[0].kind == LightKind::Directional {
        MainLight::Found(ls[0].id)
    } else {
        main_light_of(ls.drop_first())
    }
}

/// The identities of the point lights of `ls`, in order.
pub open spec fn point_ids(ls: Seq<Light>) -> Seq<u64>
    decreases ls.len(),
{
    if ls.len() == 0 {
        Seq::empty()
    } else {
        let prev = point_ids(ls.drop_last());
        if ls.last().kind == LightKind::Point {
            prev.push(ls.last().id)
        } else {
            prev
        }
    }
}

/// At most the first `MAX_POINT_LIGHTS` entries of `s`.
pub open spec fn first_points(s: Seq<u64>) -> Seq<u64> {
    if s.len() <= MAX_POINT_LIGHTS {
        s
    } else {
        s.take(MAX_POINT_LIGHTS as int)
    }
}

proof fn lemma_all_points(ls: Seq<Light>)
    requires
        forall|i: int| 0 <= i < ls.len() ==> ls[i].kind == LightKind::Point,
    ensures
        main_light_of(ls) == MainLight::Default,
        point_ids(ls) == ls.map_values(|l: Light| l.id),
    decreases ls.len(),
{
    if ls.len() > 0 {
        lemma_all_points(ls.drop_first());
        lemma_all_points(ls.drop_last());
        assert(ls.map_values(|l: Light| l.id) =~= ls.drop_last().map_values(|l: Light| l.id).push(ls.last().id));
    }
}

/// With no directional light and more than `MAX_POINT_LIGHTS` point lights,
/// the built-in directional light is used and exactly the first
/// `MAX_POINT_LIGHTS` point lights are forwarded, in discovery order.
pub proof fn lemma_default_and_four_points(ls: Seq<Light>)
    requires
        forall|i: int| 0 <= i < ls.len() ==> ls[i].kind == LightKind::Point,
        ls.len() > MAX_POINT_LIGHTS,
    ensures
        main_light_of(ls) == MainLight::Default,
        first_points(point_ids(ls)).len() == MAX_POINT_LIGHTS,
        forall|i: int| 0 <= i < MAX_POINT_LIGHTS ==> first_points(point_ids(ls))[i] == ls[i].id,
{
    lemma_all_points(ls);
}

/// The first directional light of `ls`, or the built-in one.
pub fn select_main_light(ls: &Vec<Light>) -> (r: MainLight)
    ensures
        r == main_light_of(ls@),
{
    let ghost s = ls@;
    assert(s.subrange(0, s.len() as int) =~= s);
    let mut i: usize = 0;
    while i < ls.len()
        invariant
            i <= s.len(),
            s == ls@,
            main_light_of(s) == main_light_of(s.subrange(i as int, s.len() as int)),
        decreases s.len() - i,
    {
        assert(s.subrange(i as int, s.len() as int).drop_first() =~= s.subrange(i + 1, s.len() as int));
        if ls[i].kind == LightKind::Directional {
            return MainLight::Found(ls[i].id);
        }
        i = i + 1;
    }
    MainLight::Default
}

/// The first `MAX_POINT_LIGHTS` point lights of `ls`, in order.
pub fn select_point_lights(ls: &Vec<Light>) -> (r: Vec<u64>)
    ensures
        r@ == first_points(point_ids(ls@)),
        r@.len() <= MAX_POINT_LIGHTS,
{
    let ghost s = ls@;
    let mut out: Vec<u64> = Vec::new();
    let mut i: usize = 0;
    assert(s.take(0) =~= Seq::<Light>::empty());
    while i < ls.len()
        invariant
            i <= s.len(),
            s == ls@,
            out@ == first_points(point_ids(s.take(i as int))),
        decreases s.len() - i,
    {
        let ghost prev = point_ids(s.take(i as int));
        assert(s.take(i + 1).drop_last() =~= s.take(i as int));
        if ls[i].kind == LightKind::Point && out.len() < MAX_POINT_LIGHTS {
            out.push(ls[i].id);
            assert(prev.len() < MAX_POINT_LIGHTS || prev.len() == MAX_POINT_LIGHTS);
            assert(out@ =~= first_points(prev.push(ls@[i as int].id)));
        } else if ls[i].kind == LightKind::Point {
            assert(first_points(prev.push(ls@[i as int].id)) =~= first_points(prev));
        }
        i = i + 1;
    }
    assert(s.take(s.len() as int) =~= s);
    out
}

} // verus!
