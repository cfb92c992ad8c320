use whashreonator::error::AppError;
use whashreonator::ingest::frame_analysis::{
    calls_well_bracketed, parse_frame_analysis_log, FrameAnalysisDraw, FrameAnalysisDump,
};
use whashreonator::ingest::inventory::build_prepared_inventory;

fn log() -> String {
    [
        "analyse_options=dump_rt",
        "000001 IASetIndexBuffer(pIndexBuffer:0x01, Format:57, Offset:0) hash=abcd1234",
        "000001 VSSetShader(pVertexShader:0x02) hash=11112222",
        "000001 IASetVertexBuffers(StartSlot:0, NumBuffers:1)",
        "       0: resource=0x03 hash=aaaa0001",
        "000001 DrawIndexed(IndexCount:300, StartIndexLocation:0, BaseVertexLocation:-4)",
        "000002 ClearRenderTargetView(pRenderTargetView:0x09)",
        "",
    ]
    .join("\n")
}

fn parse(text: &str) -> Result<FrameAnalysisDump, AppError> {
    assert!(calls_well_bracketed(text));
    parse_frame_analysis_log(text)
}

#[test]
fn log_reader_collects_bindings_and_draws() {
    let dump = parse(&log()).expect("log parses");
    assert_eq!(dump.options_header, "analyse_options=dump_rt");
    assert_eq!(dump.draw_calls.len(), 1);
    let dc = &dump.draw_calls[0];
    assert_eq!(dc.drawcall, 1);
    assert_eq!(dc.ib_binding.as_ref().unwrap().hash, "abcd1234");
    assert_eq!(dc.ib_binding.as_ref().unwrap().resource_address, "0x01");
    assert_eq!(dc.ib_format, Some("R16_UINT".to_string()));
    assert_eq!(dc.vs_binding.as_ref().unwrap().hash, "11112222");
    assert_eq!(dc.vb_bindings.len(), 1);
    assert_eq!(dc.vb_bindings[0].slot, "0");
    assert_eq!(dc.vb_bindings[0].resource_address, "0x03");
    assert_eq!(
        dc.draw,
        Some(FrameAnalysisDraw::Indexed { index_count: 300, start_index: 0, base_vertex: -4 })
    );
}

#[test]
fn log_reader_refuses_a_missing_header_and_bad_lines() {
    assert_eq!(
        parse(""),
        Err(AppError::InvalidInput("frame analysis log is empty".to_string()))
    );
    assert_eq!(
        parse("options\n"),
        Err(AppError::InvalidInput(
            "frame analysis log must start with analyse_options=... or analyse_options: ..."
                .to_string()
        ))
    );
    assert_eq!(
        parse("analyse_options: 0x1\ngarbage line\n"),
        Err(AppError::InvalidInput("unrecognized frame analysis log line: garbage line".to_string()))
    );
    assert_eq!(
        parse("analyse_options=x\n000001 VSSetShader(pVertexShader:0x02) hash=ABCD\n"),
        Err(AppError::InvalidInput("frame analysis hash must be lowercase hex, got ABCD".to_string()))
    );
}

#[test]
fn inventory_has_one_asset_per_hash_in_path_order() {
    let mut dump = parse(&log()).expect("log parses");
    dump.dump_dir = r"D:\dumps\FrameAnalysis-1".to_string();
    let inventory = build_prepared_inventory(&dump, "3.2.1");
    assert_eq!(inventory.schema_version, "whashreonator.prepared-assets.v1");
    assert_eq!(inventory.context.version_id, Some("3.2.1".to_string()));
    assert_eq!(inventory.context.source_root, Some("D:/dumps/FrameAnalysis-1".to_string()));
    assert_eq!(
        inventory.context.note,
        Some(
            "Captured from FrameAnalysis/log.txt; 1 draw calls, 1 unique IB hashes, 1 unique VB hashes"
                .to_string()
        )
    );
    let paths: Vec<&str> = inventory.assets.iter().map(|a| a.asset.path.as_str()).collect();
    assert_eq!(paths, vec!["runtime/ib/abcd1234", "runtime/vb/aaaa0001", "runtime/vs/11112222"]);

    let ib = &inventory.assets[0];
    assert_eq!(ib.asset.kind, Some("index_buffer".to_string()));
    assert_eq!(ib.asset.metadata.index_count, Some(300));
    assert_eq!(ib.asset.metadata.index_format, Some("R16_UINT".to_string()));
    assert_eq!(ib.hash_fields.identity_tuple, Some("fa|ib|idx_fmt:R16_UINT|idx_count:300".to_string()));
    assert_eq!(ib.asset.metadata.tags, vec!["draw_calls=1".to_string()]);

    let vb = &inventory.assets[1];
    assert_eq!(vb.asset.metadata.vertex_count, Some(300));
    assert_eq!(vb.asset.metadata.vertex_buffer_count, Some(1));
    assert_eq!(vb.hash_fields.shader_hash, Some("11112222".to_string()));
    assert_eq!(vb.hash_fields.identity_tuple, Some("fa|vb|shader:11112222".to_string()));

    let vs = &inventory.assets[2];
    assert_eq!(vs.asset.id, "vs_11112222");
    assert_eq!(vs.hash_fields.asset_hash, None);
    assert_eq!(vs.hash_fields.shader_hash, Some("11112222".to_string()));
    assert_eq!(vs.source.source_path, Some("log.txt".to_string()));
}
