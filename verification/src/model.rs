use vstd::prelude::*;

verus! {

/// What an entity is drawn with: a plain cube or a loaded model.
#[derive(Debug)]
pub enum ModelType<C, W> {
    Cube(C),
    WaveModel(W),
}

/// The model of an entity; `C` is the cube type and `W` the loaded-model type
/// of the renderer in use.
#[derive(Debug)]
pub struct Model<C, W> {
    pub model: ModelType<C, W>,
}

impl<C, W> Model<C, W> {
    /// A model drawn as `cube`.
    pub fn cube(cube: C) -> (m: Self)
        ensures
            m.model == ModelType::<C, W>::Cube(cube),
    {
        let model = ModelType::Cube(cube);
        Model { model }
    }

    /// A model drawn as the loaded model `wave`.
    pub fn wave_model(wave: W) -> (m: Self)
        ensures
            m.model == ModelType::<C, W>::WaveModel(wave),
    {
        let model = ModelType::WaveModel(wave);
        Model { model }
    }
}

} // verus!
