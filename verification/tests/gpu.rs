use grt::gpu::{
    buffer_bytes, AddressMode, Buffer, BufferUsage, Command, CullMode, FilterMode, FrontFace,
    BlendMode, Gpu, Handle, PipelineState, PrimitiveTopology, SamplerState, TargetFormat,
    TextureFormat, TextureState,
};

#[test]
fn a_new_ledger_fills_batch_zero() {
    let gpu = Gpu::new();
    assert_eq!(gpu.batch(), 0);
    assert_eq!(gpu.len(), 0);
}

#[test]
fn a_command_is_named_by_its_place() {
    let mut gpu = Gpu::new();
    let first = gpu.issue(Command::CreateSampler { state: SamplerState::clamped() });
    let second = gpu.issue(Command::ConfigureSurface { width: 3, height: 4 });
    assert_eq!(first, Handle { batch: 0, index: 0 });
    assert_eq!(second, Handle { batch: 0, index: 1 });
    assert_eq!(gpu.len(), 2);
    assert_eq!(gpu.command(0), &Command::CreateSampler { state: SamplerState::clamped() });
    assert_eq!(gpu.command(1), &Command::ConfigureSurface { width: 3, height: 4 });
}

#[test]
fn a_buffer_knows_its_length_in_words() {
    let mut gpu = Gpu::new();
    gpu.issue(Command::CreateSampler { state: SamplerState::clamped() });
    let buffer = gpu.create_buffer("b".to_string(), BufferUsage::Index, vec![1, 2, 3]);
    assert_eq!(buffer, Buffer { handle: Handle { batch: 0, index: 1 }, len: 3 });
    assert_eq!(
        gpu.command(1),
        &Command::CreateBuffer {
            label: "b".to_string(),
            usage: BufferUsage::Index,
            contents: vec![1, 2, 3]
        }
    );
}

#[test]
fn release_is_a_command_like_any_other() {
    let mut gpu = Gpu::new();
    let handle = gpu.issue(Command::CreateSampler { state: SamplerState::clamped() });
    gpu.release(handle);
    assert_eq!(gpu.command(1), &Command::Release { handle });
}

#[test]
fn take_hands_out_the_batch_and_starts_the_next() {
    let mut gpu = Gpu::new();
    gpu.issue(Command::CreateSampler { state: SamplerState::clamped() });
    gpu.issue(Command::ConfigureSurface { width: 1, height: 1 });
    let batch = gpu.take();
    assert_eq!(
        batch,
        Some(vec![Command::CreateSampler { state: SamplerState::clamped() }, Command::ConfigureSurface { width: 1, height: 1 }])
    );
    assert_eq!(gpu.batch(), 1);
    assert_eq!(gpu.len(), 0);
    let handle = gpu.issue(Command::CreateSampler { state: SamplerState::clamped() });
    assert_eq!(handle, Handle { batch: 1, index: 0 });
    assert_eq!(gpu.take(), Some(vec![Command::CreateSampler { state: SamplerState::clamped() }]));
    assert_eq!(gpu.take(), Some(vec![]));
    assert_eq!(gpu.batch(), 3);
}

#[test]
fn the_bytes_of_a_buffer_are_its_words_in_the_byte_order_of_the_machine() {
    let words = vec![0x0403_0201u32, 0xA0B0_C0D0, 7];
    let bytes = buffer_bytes(&words);
    let native: Vec<u8> = words.iter().flat_map(|word| word.to_ne_bytes()).collect();
    let little: Vec<u8> = words.iter().flat_map(|word| word.to_le_bytes()).collect();
    let big: Vec<u8> = words.iter().flat_map(|word| word.to_be_bytes()).collect();
    assert_eq!(bytes.len(), 12);
    assert_eq!(bytes, native);
    assert!(bytes == little || bytes == big);
    assert_eq!(little[..4].to_vec(), vec![1, 2, 3, 4]);
    assert_eq!(big[..4].to_vec(), vec![4, 3, 2, 1]);
    assert_eq!(buffer_bytes(&vec![]), Vec::<u8>::new());
}

#[test]
fn the_textures_samplers_and_pipelines_that_the_engine_makes() {
    assert_eq!(
        TextureState::sampled(),
        TextureState {
            dimensions: 2,
            format: TextureFormat::Rgba8UnormSrgb,
            mip_level_count: 1,
            sample_count: 1,
            texture_binding: true,
            copy_dst: true,
        }
    );
    assert_eq!(
        SamplerState::clamped(),
        SamplerState {
            address_mode_u: AddressMode::ClampToEdge,
            address_mode_v: AddressMode::ClampToEdge,
            address_mode_w: AddressMode::ClampToEdge,
            mag_filter: FilterMode::Linear,
            min_filter: FilterMode::Nearest,
            mipmap_filter: FilterMode::Nearest,
        }
    );
    assert_eq!(
        PipelineState::opaque(),
        PipelineState {
            topology: PrimitiveTopology::TriangleList,
            front_face: FrontFace::Ccw,
            cull_mode: CullMode::Back,
            depth_stencil: false,
            sample_count: 1,
            target: TargetFormat::Surface,
            blend: BlendMode::Replace,
            write_all: true,
        }
    );
}
