//! What the renderer draws: for every entity that has a model, one draw per
//! mesh, entities in ascending order and meshes in the order of the model.

use crate::engine::frame::State;
use vstd::prelude::*;

verus! {

/// One mesh of a model: how many indices it has, and which of the model's
/// materials it is drawn with.
#[derive(Clone, Copy, Debug, PartialEq, Eq, Structural)]
pub struct Mesh {
    pub num_elements: u32,
    pub material: usize,
}

/// One indexed draw: indices `0..num_elements` of mesh `mesh` of the model
/// of `entity`, with material `material`, for instances `0..instances`.
#[derive(Clone, Copy, Debug, PartialEq, Eq, Structural)]
pub struct DrawCall {
    pub entity: usize,
    pub mesh: usize,
    pub material: usize,
    pub num_elements: u32,
    pub instances: u32,
}

/// A model as contracts see it.
pub struct ModelView {
    pub meshes: Seq<Mesh>,
    pub materials: nat,
    pub instances: nat,
}

impl ModelView {
    /// Every mesh names one of the model's materials.
    pub open spec fn well_formed(self) -> bool {
        forall|i: int| 0 <= i < self.meshes.len() ==> (#[trigger] self.meshes[i]).material
            < self.materials
    }

    /// The draw of mesh `mesh` for the model of `entity`. The end of the
    /// instance range is the number of instances cut to 32 bits, which is
    /// what a draw can address.
    pub open spec fn draw(self, entity: usize, mesh: int) -> DrawCall {
        DrawCall {
            entity,
            mesh: mesh as usize,
            material: self.meshes[mesh].material,
            num_elements: self.meshes[mesh].num_elements,
            instances: self.instances as u32,
        }
    }

    /// The draws for the model of `entity`: one per mesh, in mesh order.
    pub open spec fn draws(self, entity: usize) -> Seq<DrawCall> {
        Seq::new(self.meshes.len(), |mesh: int| self.draw(entity, mesh))
    }
}

/// The drawable shape of a model: its meshes, and how many materials and
/// instances it has. Every mesh names a material that the model has.
#[derive(Debug)]
pub struct Model {
    meshes: Vec<Mesh>,
    materials: usize,
    instances: usize,
}

impl View for Model {
    type V = ModelView;

    closed spec fn view(&self) -> ModelView {
        ModelView {
            meshes: self.meshes@,
            materials: self.materials as nat,
            instances: self.instances as nat,
        }
    }
}

/// The draws for the first `upto` slots of `models`, in entity order.
pub open spec fn draws_upto(models: Seq<Option<Model>>, upto: nat) -> Seq<DrawCall>
    recommends
        upto <= models.len(),
    decreases upto,
{
    if upto == 0 {
        Seq::empty()
    } else {
        let entity = (upto - 1) as int;
        draws_upto(models, entity as nat) + match models[entity] {
            Some(model) => model@.draws(entity as usize),
            None => Seq::empty(),
        }
    }
}

/// The draws for a frame: none where there is no column of models, else
/// those of every slot that holds one.
pub open spec fn frame_draws(models: Option<Seq<Option<Model>>>) -> Seq<DrawCall> {
    match models {
        Some(models) => draws_upto(models, models.len()),
        None => Seq::empty(),
    }
}

impl Model {
    #[verifier::type_invariant]
    spec fn well_formed(&self) -> bool {
        self@.well_formed()
    }

    /// A model of `meshes` with `materials` materials and `instances`
    /// instances; `None` if a mesh names a material that is not there.
    pub fn new(meshes: Vec<Mesh>, materials: usize, instances: usize) -> (model: Option<Self>)
        ensures
            match model {
                Some(model) => {
                    &&& model@.meshes == meshes@
                    &&& model@.materials == materials
                    &&& model@.instances == instances
                    &&& model@.well_formed()
                },
                None => exists|i: int|
                    0 <= i < meshes.len() && (#[trigger] meshes[i]).material >= materials,
            },
    {
        let mut i: usize = 0;
        while i < meshes.len()
            invariant
                i <= meshes.len(),
                forall|j: int| 0 <= j < i ==> (#[trigger] meshes[j]).material < materials,
            decreases meshes.len() - i,
        {
            if meshes[i].material >= materials {
                return None;
            }
            i = i + 1;
        }
        Some(Model { meshes, materials, instances })
    }

    pub fn meshes(&self) -> (meshes: &Vec<Mesh>)
        ensures
            meshes@ == self@.meshes,
            self@.well_formed(),
    {
        proof {
            use_type_invariant(self);
        }
        &self.meshes
    }

    pub fn materials(&self) -> (n: usize)
        ensures
            n == self@.materials,
    {
        self.materials
    }

    pub fn instances(&self) -> (n: usize)
        ensures
            n == self@.instances,
    {
        self.instances
    }

    /// Appends to `calls` the draws for this model as the model of `entity`.
    pub fn draw_model(&self, entity: usize, calls: &mut Vec<DrawCall>)
        ensures
            final(calls)@ == old(calls)@ + self@.draws(entity),
            forall|i: int|
                0 <= i < self@.meshes.len() ==> (#[trigger] self@.draws(entity)[i]).material
                    < self@.materials,
    {
        proof {
            use_type_invariant(self);
        }
        let instances = #[verifier::truncate]
        (self.instances as u32);
        let mut mesh: usize = 0;
        while mesh < self.meshes.len()
            invariant
                mesh <= self.meshes.len(),
                instances == self@.instances as u32,
                calls@ == old(calls)@ + self@.draws(entity).take(mesh as int),
            decreases self.meshes.len() - mesh,
        {
            let m = &self.meshes[mesh];
            calls.push(
                DrawCall {
                    entity,
                    mesh,
                    material: m.material,
                    num_elements: m.num_elements,
                    instances,
                },
            );
            proof {
                let draws = self@.draws(entity);
                assert(draws.take(mesh + 1) == draws.take(mesh as int).push(draws[mesh as int]));
            }
            mesh = mesh + 1;
        }
        proof {
            let draws = self@.draws(entity);
            assert(draws.take(mesh as int) == draws);
        }
    }
}

impl State {
    /// The draws of one frame. `models` is the column of models as a borrow
    /// of it showed it, `None` where the world has no such column: then
    /// nothing is drawn. Otherwise every entity that has a model gets its
    /// draws, entities in ascending order.
    pub fn render(&self, models: Option<&Vec<Option<Model>>>) -> (calls: Vec<DrawCall>)
        ensures
            calls@ == frame_draws(
                match models {
                    Some(models) => Some(models@),
                    None => None,
                },
            ),
    {
        let mut calls: Vec<DrawCall> = Vec::new();
        match models {
            None => {},
            Some(models) => {
                let mut entity: usize = 0;
                while entity < models.len()
                    invariant
                        entity <= models.len(),
                        calls@ == draws_upto(models@, entity as nat),
                    decreases models.len() - entity,
                {
                    match &models[entity] {
                        Some(model) => {
                            model.draw_model(entity, &mut calls);
                        },
                        None => {
                            assert(calls@ + Seq::<DrawCall>::empty() == calls@);
                        },
                    }
                    entity = entity + 1;
                }
            },
        }
        calls
    }
}

} // verus!
