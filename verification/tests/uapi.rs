use lite_runtime::uapi::alsa::{
    configure_hardware, configure_software, decode_delay, decode_state, protocol_matches,
    set_interval, set_mask, PlaybackRing, State, HW_PARAMS_BYTES, SYNC_PTR_BYTES,
};
use lite_runtime::uapi::bytes::{pack_words, read_i32, read_u16, read_u32, read_u64, write_u32, write_u64};
use lite_runtime::uapi::drm::{
    check_dumb_geometry, check_resources, check_shared_dumb, create_dumb_request, created_dumb,
    dirty_request, dumb_extent, dumb_handle, fits, page_flip_request, set_crtc_request,
    transferred_size, DumbBuffer, FlipEvent, GemHandle, Mode, SharedDumbBuffer, Topology,
};
use lite_runtime::uapi::evdev::{event_count, name_length, AbsoluteAxis, AbsoluteRange, InputEvent};
use lite_runtime::uapi::kobject::is_drm_hotplug;
use lite_runtime::uapi::process::{
    fork_result, parse_launch, pty_slave_path, read_exec_status, report_exec_failure,
    ExecStatusError, Fork, Pid, SessionCommand, SessionIo, Signal, EXEC_STATUS_ERROR_LEN,
};
use lite_runtime::uapi::request::{drm_iowr, ioc, DRM_IOCTL_DROP_MASTER};
use lite_runtime::uapi::unix::{
    check_credentials, check_memfd, fd_control, parse_received_control, poll_timeout,
    received_descriptor, ControlError, PeerCredentials, PollEvents, SharedMapping,
};
use lite_runtime::uapi::virgl::command::{
    CommandEncoder, ObjectKind, SamplerFilter, SamplerWrap, ShaderStage,
};
use lite_runtime::uapi::virgl::{
    check_3d, check_capset, check_debug_name, check_exec, check_shared_virgl, ResourceSpec,
    VirglCapabilities, VirglResource, FORMAT_R8_UNORM,
};
use lite_runtime::uapi::ErrorKind;

const EXEC_STATUS_HEADER: [u8; 5] = *b"LSEX\x01";

#[test]
fn fixed_hardware_layout_matches_linux_uapi() {
    let mut bytes = [0u8; HW_PARAMS_BYTES];
    set_mask(&mut bytes, 4, 0);
    set_mask(&mut bytes, 36, 14);
    set_interval(&mut bytes, 10, 2);
    set_interval(&mut bytes, 11, 48_000);
    assert_eq!(read_u32(&bytes, 4), 1);
    assert_eq!(read_u32(&bytes, 36), 1 << 14);
    assert_eq!(read_u32(&bytes, 284), 2);
    assert_eq!(read_u32(&bytes, 296), 48_000);
    assert_eq!(HW_PARAMS_BYTES, 608);
    assert_eq!(SYNC_PTR_BYTES, 136);
}

#[test]
fn surface_packet_matches_virgl_protocol_layout() {
    let mut encoder = CommandEncoder::new();
    encoder.create_surface(11, 29, 2);
    assert_eq!(encoder.words(), &[1 | (8 << 8) | (5 << 16), 11, 29, 2, 0, 0]);
}

#[test]
fn shader_packet_is_nul_terminated_and_dword_aligned() {
    let mut encoder = CommandEncoder::new();
    encoder.create_shader(4, ShaderStage::Fragment, "END\n");
    assert_eq!(encoder.words()[0] >> 16, 7);
    assert_eq!(encoder.words()[1..6], [4, 1, 5, 4, 0]);
    assert_eq!(encoder.words()[6].to_ne_bytes(), *b"END\n");
    assert_eq!(encoder.words()[7].to_ne_bytes(), [0, 0, 0, 0]);
}

#[test]
fn shader_token_capacity_scales_with_generated_source() {
    let source = "0: MOV OUT[0], IN[0]\n".repeat(400);
    let mut encoder = CommandEncoder::new();
    encoder.create_shader(9, ShaderStage::Fragment, &source);
    assert_eq!(encoder.words()[4], source.len() as u32);
    assert!(encoder.words()[4] > 300);
}

#[test]
fn shader_link_packet_uses_stable_virgl_command_number() {
    let mut encoder = CommandEncoder::new();
    encoder.link_shaders(2, 3);
    assert_eq!(encoder.words(), &[52 | (6 << 16), 2, 3, 0, 0, 0, 0]);
}

#[test]
fn sampler_view_declares_a_2d_texture_target() {
    let mut encoder = CommandEncoder::new();
    encoder.create_sampler_view(19, 7, 1);
    assert_eq!(
        encoder.words(),
        &[1 | (6 << 8) | (6 << 16), 19, 7, 1 | (2 << 24), 0, 0, 1672]
    );
}

#[test]
fn y0_top_viewport_inverts_gallium_y_scale() {
    let mut encoder = CommandEncoder::new();
    encoder.set_viewport(3008, 1692);
    assert_eq!(f32::from_bits(encoder.words()[3]), -846.0);
    assert_eq!(f32::from_bits(encoder.words()[6]), 846.0);
}

#[test]
fn viewport_halves_are_the_rounded_halves() {
    for value in [
        0u32,
        1,
        2,
        3,
        1023,
        0x00ff_ffff,
        0x0100_0000,
        0x0100_0001,
        0x0100_0003,
        0x01ff_ffff,
        0x8000_0080,
        0x8000_0081,
        0x8000_0180,
        0xffff_ff7f,
        0xffff_ff80,
        u32::MAX,
    ] {
        let mut encoder = CommandEncoder::new();
        encoder.set_viewport(value, value);
        let half = value as f32 / 2.0;
        assert_eq!(encoder.words()[2], half.to_bits());
        assert_eq!(encoder.words()[3], (-half).to_bits());
        assert_eq!(f32::from_bits(encoder.words()[4]), 0.5);
    }
}

#[test]
fn every_command_is_one_whole_packet() {
    let mut encoder = CommandEncoder::default();
    assert!(encoder.is_empty());
    encoder.create_textured_vertex_elements(1);
    encoder.create_premultiplied_blend(2);
    encoder.create_depth_stencil_alpha(3);
    encoder.create_rasterizer(4);
    encoder.create_sampler_state(
        5,
        SamplerFilter::Linear,
        SamplerWrap::Repeat,
        SamplerWrap::ClampToBorder,
    );
    encoder.bind_object(ObjectKind::Blend, 2);
    encoder.destroy_object(ObjectKind::Surface, 9);
    encoder.bind_shader(ShaderStage::Fragment, 7);
    encoder.set_framebuffer(8);
    encoder.set_vertex_buffer(6);
    encoder.set_texture(10, 11);
    encoder.set_constants(ShaderStage::Vertex, &[1, 2, 3]);
    encoder.clear([0; 4]);
    encoder.draw_triangles(0, 6);
    let words = encoder.words();
    assert_eq!(words.len(), encoder.len());
    let mut at = 0;
    let mut packets = 0;
    while at < words.len() {
        at += 1 + (words[at] >> 16) as usize;
        packets += 1;
    }
    assert_eq!(at, words.len());
    assert_eq!(packets, 15);
    assert_eq!(words[words.len() - 2], 5);
    assert_eq!(words[14], 1 | (1 << 4) | (0x13 << 9) | (1 << 17) | (0x13 << 22) | (0xf << 27));
}

#[test]
fn requires_both_standard_drm_hotplug_fields() {
    assert!(is_drm_hotplug(
        b"change@/devices/card0\0ACTION=change\0SUBSYSTEM=drm\0HOTPLUG=1\0"
    ));
    assert!(!is_drm_hotplug(b"SUBSYSTEM=drm\0ACTION=change\0"));
    assert!(!is_drm_hotplug(b"SUBSYSTEM=input\0HOTPLUG=1\0"));
}

#[test]
fn hotplug_fields_are_matched_whole() {
    assert!(is_drm_hotplug(b"HOTPLUG=1\0SUBSYSTEM=drm"));
    assert!(!is_drm_hotplug(b"HOTPLUG=10\0SUBSYSTEM=drm"));
    assert!(!is_drm_hotplug(b"XSUBSYSTEM=drm\0HOTPLUG=1"));
    assert!(!is_drm_hotplug(b""));
}

#[test]
fn exec_status_is_bounded_and_rejects_partial_or_invalid_frames() {
    assert!(read_exec_status(&[]).is_ok());
    let mut frame = [0u8; EXEC_STATUS_ERROR_LEN];
    frame[..5].copy_from_slice(&EXEC_STATUS_HEADER);
    frame[5] = 6;
    frame[6..].copy_from_slice(&2i32.to_ne_bytes());
    for length in 1..EXEC_STATUS_ERROR_LEN {
        assert_eq!(
            read_exec_status(&frame[..length]),
            Err(ExecStatusError::Truncated)
        );
    }
    assert_eq!(
        read_exec_status(&[0u8; EXEC_STATUS_ERROR_LEN + 1]),
        Err(ExecStatusError::Exceeded)
    );
    frame[6..].copy_from_slice(&0i32.to_ne_bytes());
    assert_eq!(read_exec_status(&frame), Err(ExecStatusError::InvalidErrno));
}

#[test]
fn exec_status_preserves_stage_and_errno() {
    let mut frame = [0u8; EXEC_STATUS_ERROR_LEN];
    frame[..5].copy_from_slice(&EXEC_STATUS_HEADER);
    frame[5] = 6;
    frame[6..].copy_from_slice(&2i32.to_ne_bytes());
    let error = read_exec_status(&frame).unwrap_err();
    assert_eq!(error, ExecStatusError::Failed { stage: 6, errno: 2 });
    assert!(error.message().contains("stage 6"));
}

#[test]
fn published_failures_are_read_back() {
    assert_eq!(
        read_exec_status(&report_exec_failure(3, Some(13))),
        Err(ExecStatusError::Failed { stage: 3, errno: 13 })
    );
    assert_eq!(
        read_exec_status(&report_exec_failure(4, None)),
        Err(ExecStatusError::Failed { stage: 4, errno: 5 })
    );
    assert_eq!(
        read_exec_status(&report_exec_failure(7, Some(1))),
        Err(ExecStatusError::Truncated)
    );
    assert_eq!(
        read_exec_status(&report_exec_failure(1, Some(-1))),
        Err(ExecStatusError::InvalidErrno)
    );
    assert_eq!(
        ExecStatusError::InvalidErrno.message(),
        "session trampoline returned an invalid errno"
    );
}

#[test]
fn session_command_rejects_non_absolute_program_before_spawn() {
    let command = SessionCommand::new("relative".to_owned(), Vec::new(), SessionIo::Background);
    let error = match command.launch_arguments(1) {
        Ok(_) => panic!("relative program unexpectedly accepted"),
        Err(error) => error,
    };
    assert_eq!(error.kind, ErrorKind::InvalidInput);
}

#[test]
fn launch_arguments_are_parsed_back() {
    let command = SessionCommand::new(
        "/bin/app".to_owned(),
        vec!["-x".to_owned()],
        SessionIo::Piped,
    );
    let arguments = command.launch_arguments(412).unwrap();
    assert_eq!(arguments, ["412", "--", "/bin/app", "-x"]);
    let request = parse_launch(&arguments).unwrap();
    assert_eq!(request.parent.get(), 412);
    assert_eq!(request.program, 2);
    for bad in [
        vec!["0", "--", "/bin/app"],
        vec!["x", "--", "/bin/app"],
        vec!["12", "-", "/bin/app"],
        vec!["12", "--"],
    ] {
        let bad = bad.into_iter().map(str::to_owned).collect::<Vec<_>>();
        assert!(parse_launch(&bad).is_none());
    }
}

#[test]
fn process_numbers_are_positive() {
    assert!(Pid::new(0).is_none());
    assert!(Pid::new(-4).is_none());
    assert_eq!(Pid::new(7).unwrap().get(), 7);
    assert!(fork_result(-1).is_none());
    assert_eq!(fork_result(0), Some(Fork::Child));
    assert_eq!(
        fork_result(9),
        Some(Fork::Parent {
            child: Pid::new(9).unwrap()
        })
    );
    assert_eq!(Signal::Kill.raw(), 9);
    assert_eq!(Signal::Terminate.raw(), 15);
    assert_eq!(pty_slave_path(17), "/dev/pts/17");
}

#[test]
fn drm_replies_are_checked() {
    assert_eq!(check_resources(0, 1).unwrap_err().kind, ErrorKind::NotFound);
    assert!(check_resources(1, 1).is_ok());
    let mut bytes = [0u8; 68];
    bytes[4..6].copy_from_slice(&1504u16.to_ne_bytes());
    bytes[14..16].copy_from_slice(&846u16.to_ne_bytes());
    let mode = Mode::from_bytes(bytes);
    assert_eq!((mode.width(), mode.height()), (1504, 846));
    assert_eq!(Mode::default().width(), 0);
    assert_eq!(
        Topology::select(1, 2, 1, Mode::default()).err().unwrap().message,
        "DRM connector has no mode"
    );
    let topology = Topology::select(3, 4, 1, mode).ok().unwrap();
    let request = set_crtc_request(&topology, 9, 0x1234_5678_9abc);
    assert_eq!(request.len(), 104);
    assert_eq!(read_u64(&request, 0), 0x1234_5678_9abc);
    assert_eq!(read_u32(&request, 8), 1);
    assert_eq!(read_u32(&request, 12), 3);
    assert_eq!(read_u32(&request, 16), 9);
    assert_eq!(read_u16(&request, 40), 1504);
}

#[test]
fn flip_events_are_decoded() {
    let mut bytes = [0u8; 32];
    write_u32(&mut bytes, 0, 2);
    write_u32(&mut bytes, 4, 32);
    write_u64(&mut bytes, 8, 77);
    write_u32(&mut bytes, 16, 5);
    write_u32(&mut bytes, 20, 6);
    write_u32(&mut bytes, 24, 7);
    assert_eq!(
        FlipEvent::decode(&bytes).unwrap(),
        FlipEvent {
            user_data: 77,
            seconds: 5,
            microseconds: 6,
            sequence: 7
        }
    );
    write_u32(&mut bytes, 0, 1);
    assert_eq!(
        FlipEvent::decode(&bytes).unwrap_err().message,
        "DRM returned a non-flip event"
    );
}

#[test]
fn dumb_buffers_keep_rows_in_their_mapping() {
    assert_eq!(dumb_handle(0).unwrap_err().message, "DRM returned handle zero");
    assert_eq!(dumb_extent(4096, 64).unwrap(), (4096, 64));
    assert!(fits(16, 64, 64, 4096));
    assert!(!fits(17, 64, 64, 4096));
    assert!(!fits(16, 65, 64, 4096));
    assert!(!fits(usize::MAX, 1, 64, 4096));
    assert_eq!(
        check_dumb_geometry(17, 64, 64, 4096).unwrap_err().kind,
        ErrorKind::InvalidData
    );
    assert_eq!(transferred_size(3, 5).unwrap(), 60);
    assert_eq!(
        transferred_size(usize::MAX, 1).unwrap_err().message,
        "DRM size overflow"
    );
    let handle = check_shared_dumb(8, 16, 64, 64, 4096).unwrap();
    assert_eq!(handle.get(), 8);
    assert_eq!(
        check_shared_dumb(0, 16, 64, 64, 4096).unwrap_err().message,
        "GEM handle is zero"
    );
    assert_eq!(
        check_shared_dumb(8, 16, 65, 64, 4096).unwrap_err().message,
        "shared dumb-buffer geometry is inconsistent"
    );
    let mapping = SharedDumbBuffer::new(4096, 64, 16, 64);
    assert_eq!((mapping.width(), mapping.height()), (16, 64));
    assert_eq!(mapping.row_offset(63), 63 * 64);
    let mut buffer = DumbBuffer {
        gem: GemHandle::new(5),
        mapping,
    };
    assert_eq!(buffer.handle().get(), 5);
    assert_eq!(buffer.transfer_handle().get(), 5);
    assert!(buffer.gem.is_none());
}

#[test]
fn drm_requests_have_their_layout() {
    let request = create_dumb_request(1504, 846);
    assert_eq!(request.len(), 32);
    assert_eq!(read_u32(&request, 0), 846);
    assert_eq!(read_u32(&request, 4), 1504);
    assert_eq!(read_u32(&request, 8), 32);
    let mut reply = request;
    write_u32(&mut reply, 16, 3);
    write_u32(&mut reply, 20, 6016);
    write_u64(&mut reply, 24, 6016 * 846);
    assert_eq!(created_dumb(&reply), (3, 6016, 6016 * 846));
    let flip = page_flip_request(1, 2, 0x1_0000_0003);
    assert_eq!(flip.len(), 24);
    assert_eq!(read_u64(&flip, 16), 0x1_0000_0003);
    assert_eq!(read_u32(&flip, 8), 1);
    let dirty = dirty_request(4, 2, 0xabcd);
    assert_eq!(dirty.len(), 24);
    assert_eq!(read_u32(&dirty, 12), 2);
    assert_eq!(ioc(0, 0x64, 0x1f, 0), DRM_IOCTL_DROP_MASTER);
    assert_eq!(drm_iowr(0xb2, 32), (3 << 30) | (32 << 16) | (0x64 << 8) | 0xb2);
    assert_eq!(AbsoluteAxis::Y.request(), (2 << 30) | (24 << 16) | (0x45 << 8) | 0x41);
}

#[test]
fn words_are_packed_in_order() {
    let bytes = pack_words(&[1, 0x0403_0201, u32::MAX]);
    assert_eq!(bytes, [1, 0, 0, 0, 1, 2, 3, 4, 255, 255, 255, 255]);
    assert_eq!(read_i32(&bytes, 8), -1);
}

#[test]
fn resources_are_described_and_checked() {
    let target = ResourceSpec::render_target(8, 4).unwrap();
    assert_eq!((target.stride, target.size, target.bind), (32, 128, 0x410a));
    let mask = ResourceSpec::mask_texture(8, 4).unwrap();
    assert_eq!((mask.stride, mask.size, mask.format), (8, 32, FORMAT_R8_UNORM));
    assert_eq!(ResourceSpec::color_texture(8, 4).unwrap().bind, 10);
    for (width, height, format, message) in [
        (1, 1, 9, "unsupported VirGL texture format"),
        (u32::MAX, 1, 1, "VirGL stride overflow"),
        (1 << 20, 1 << 20, 1, "VirGL resource size overflow"),
        (0, 5, 1, "VirGL texture has zero area"),
    ] {
        assert_eq!(
            ResourceSpec::texture(width, height, format, 0).unwrap_err().message,
            message
        );
    }
    assert_eq!(
        ResourceSpec::vertex_buffer(0).unwrap_err().message,
        "VirGL vertex buffer is empty"
    );
    let buffer = ResourceSpec::vertex_buffer(64).unwrap();
    let request = buffer.create_request();
    assert_eq!(request.len(), 56);
    assert_eq!(read_u32(&request, 48), 64);
    let mut reply = request;
    assert_eq!(
        ResourceSpec::created(&reply).unwrap_err().message,
        "VirtIO-GPU returned GEM handle zero"
    );
    write_u32(&mut reply, 40, 3);
    assert_eq!(
        ResourceSpec::created(&reply).unwrap_err().message,
        "VirtIO-GPU returned resource handle zero"
    );
    write_u32(&mut reply, 44, 9);
    let (handle, resource) = ResourceSpec::created(&reply).unwrap();
    let info = pack_words(&[3, 9, 64, 0]);
    assert!(buffer.check_info(resource, &info).is_ok());
    assert!(buffer.check_info(8, &info).is_err());
    let made = VirglResource::new(handle, resource, 64, &buffer);
    let transfer = made.transfer_buffer().unwrap();
    assert_eq!((transfer.width, transfer.height, transfer.handle), (64, 1, 3));
    assert_eq!(transfer.request().len(), 44);
    let picture = VirglResource::new(handle, resource, 128, &target);
    let part = picture.transfer(2, 3, 4, 1).unwrap();
    assert_eq!((part.offset, part.stride, part.layer_stride), (3 * 32 + 8, 32, 128));
    assert_eq!(
        picture.transfer(u32::MAX, 0, 1, 1).unwrap_err().message,
        "VirGL transfer offset overflow"
    );
    assert_eq!(
        picture.transfer_buffer().unwrap_err().message,
        "VirGL resource is not a byte buffer"
    );
}

#[test]
fn contexts_are_checked() {
    assert_eq!(check_exec(2, false).unwrap(), 8);
    assert_eq!(check_exec(0, true).unwrap_err().message, "VirGL command stream is empty");
    assert_eq!(
        check_exec(1, true).unwrap_err().message,
        "VirGL resource belongs to another DRM OFD"
    );
    assert_eq!(
        check_exec(0x4000_0000, false).unwrap_err().message,
        "VirGL command stream is too large"
    );
    assert!(check_debug_name(&"x".repeat(64)).is_ok());
    assert_eq!(
        check_debug_name(&"x".repeat(65)).unwrap_err().message,
        "VirGL debug name exceeds 64 bytes"
    );
    assert!(check_debug_name(&"é".repeat(33)).is_err());
    assert_eq!(
        check_debug_name("a\0b").unwrap_err().message,
        "VirGL debug name contains NUL"
    );
    assert_eq!(check_3d(0).unwrap_err().kind, ErrorKind::Unsupported);
    assert!(check_3d(1).is_ok());
    assert!(check_capset(4).is_ok());
    assert!(check_capset(3).is_err());
    assert!(check_shared_virgl(1, 4, 4, 16, 64).is_ok());
    assert_eq!(
        check_shared_virgl(0, 4, 4, 16, 64).unwrap_err().message,
        "VirGL GEM handle is zero"
    );
    let capabilities = VirglCapabilities::new(vec![7; 4096]);
    assert_eq!(capabilities.as_bytes().len(), 4096);
    assert_eq!(capabilities.as_bytes()[9], 7);
}

#[test]
fn input_records_are_decoded() {
    let mut bytes = vec![0u8; 48];
    bytes[24 + 16..24 + 18].copy_from_slice(&1u16.to_ne_bytes());
    bytes[24 + 18..24 + 20].copy_from_slice(&272u16.to_ne_bytes());
    bytes[24 + 20..48].copy_from_slice(&(-1i32).to_ne_bytes());
    assert_eq!(event_count(48).unwrap(), 2);
    assert_eq!(event_count(47).unwrap_err().message, "evdev returned a partial event");
    let event = InputEvent::decode(&bytes, 24);
    assert_eq!((event.kind(), event.code(), event.value()), (1, 272, -1));
    assert_eq!(InputEvent::empty().value(), 0);
    let info = pack_words(&[5, 0xffff_fff0, 32767, 0, 0, 0]);
    let range = AbsoluteRange::decode(&info);
    assert_eq!((range.minimum, range.maximum), (-16, 32767));
    assert_eq!(name_length(b"mouse\0xx"), 5);
    assert_eq!(name_length(b"mouse"), 5);
}

#[test]
fn poll_events_are_sets() {
    let both = PollEvents::read().union(PollEvents::hangup());
    assert!(both.contains(PollEvents::read()));
    assert!(both.contains(PollEvents::hangup()));
    assert!(!both.contains(PollEvents::write()));
    assert!(!PollEvents::empty().contains(both));
    assert_eq!(PollEvents::error().get(), 8);
    assert_eq!(poll_timeout(None), -1);
    assert_eq!(poll_timeout(Some(16)), 16);
    assert_eq!(poll_timeout(Some(1 << 40)), i32::MAX);
}

#[test]
fn passed_descriptors_are_received() {
    let control = fd_control(17);
    assert_eq!(control.len(), 24);
    let received = parse_received_control(&control, control.len());
    assert_eq!(received.descriptors, [17]);
    assert!(received.error.is_none());
    assert_eq!(received_descriptor(&received, 0), Ok(Some(17)));
    assert_eq!(
        received_descriptor(&received, 8),
        Err(ControlError::TruncatedControl)
    );
    let nothing = parse_received_control(&control, 0);
    assert_eq!(received_descriptor(&nothing, 0), Ok(None));
}

#[test]
fn malformed_control_data_lists_every_descriptor() {
    let mut two = [0u8; 24];
    write_u64(&mut two, 0, 24);
    write_u32(&mut two, 8, 1);
    write_u32(&mut two, 12, 1);
    write_u32(&mut two, 16, 5);
    write_u32(&mut two, 20, 6);
    let received = parse_received_control(&two, 24);
    assert_eq!(received.descriptors, [5, 6]);
    assert_eq!(received.error, Some(ControlError::NotOneDescriptor));
    write_u32(&mut two, 20, u32::MAX);
    let received = parse_received_control(&two, 24);
    assert_eq!(received.descriptors, [5]);
    assert_eq!(received.error, Some(ControlError::NotOneDescriptor));
    write_u32(&mut two, 12, 2);
    let received = parse_received_control(&two, 24);
    assert!(received.descriptors.is_empty());
    assert!(received.error.is_some());
    write_u64(&mut two, 0, 15);
    assert!(parse_received_control(&two, 24).error.is_some());
    assert_eq!(
        parse_received_control(&two, 25).error,
        Some(ControlError::LengthExceedsStorage)
    );
}

#[test]
fn peers_and_mappings_are_checked() {
    let peer = PeerCredentials {
        pid: 3,
        uid: 0,
        gid: 0,
    };
    assert_eq!(check_credentials(peer, 12).unwrap(), peer);
    assert!(check_credentials(peer, 8).is_err());
    assert!(check_credentials(PeerCredentials { pid: 0, ..peer }, 12).is_err());
    assert!(check_memfd("ring", 4096).is_ok());
    assert_eq!(
        check_memfd("ring", 0).unwrap_err().message,
        "shared mapping length must fit off_t"
    );
    assert_eq!(
        check_memfd("a\0", 1).unwrap_err().message,
        "memfd name contains an interior NUL"
    );
    let mapping = SharedMapping::new(4096).unwrap();
    assert_eq!(mapping.len(), 4096);
    assert!(!mapping.is_empty());
    assert_eq!(
        SharedMapping::new(0).unwrap_err().message,
        "shared mapping cannot be empty"
    );
}

#[test]
fn playback_layouts_and_ring_come_round() {
    assert_eq!(configure_hardware().len(), HW_PARAMS_BYTES);
    assert!(!configure_software().is_empty());
    assert!(!protocol_matches(0));
    assert_eq!(decode_delay(-1), None);
    assert_eq!(decode_delay(480), Some(480));
    let status = pack_words(&[3, 0, 0, 0]);
    assert_eq!(decode_state(&status), Some(State::Running));
    let mut ring = PlaybackRing::new();
    ring.prepare();
    let first = ring.byte_offset();
    for _ in 0..4 {
        ring.commit_period();
    }
    assert_eq!(ring.byte_offset(), first);
}
