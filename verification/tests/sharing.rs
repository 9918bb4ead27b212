use chunk_render::chunk::{ChunkGraph, GenerateContext};
use chunk_render::link_output::LinkOutput;

fn shareable<T: Send + Sync>() -> bool {
    true
}

#[test]
fn frozen_inputs_can_be_shared_between_renderers() {
    assert!(shareable::<LinkOutput>());
    assert!(shareable::<ChunkGraph>());
    assert!(shareable::<GenerateContext<'static>>());
}
