use modelhub_windows::json::{JsonMember, JsonNumber, JsonValue};
use modelhub_windows::models::{DiskInfo, GpuInfo};
use modelhub_windows::system_info::{
    collect_cpu, disk_info, gpu_sort_key, is_placeholder_gpu, normalize_path_for_compare,
    parse_gpu_json, score_mount_match, select_disk_for_hf_cache, sort_gpus,
};

#[test]
fn matches_drive_root_for_nested_hf_cache_path() {
    assert_eq!(
        score_mount_match(r"C:\Users\person\.cache\huggingface\hub", r"C:\"),
        Some(3)
    );
}

#[test]
fn prefers_specific_mount_without_prefix_bleed() {
    assert_eq!(score_mount_match(r"C:\models2\hub", r"C:\models"), None);
    assert_eq!(score_mount_match(r"C:\models\hub", r"C:\models"), Some(9));
}

#[test]
fn does_not_match_other_drives() {
    assert_eq!(score_mount_match(r"D:\models\hub", r"C:\"), None);
}

#[test]
fn paths_are_normalized_before_comparing() {
    assert_eq!(normalize_path_for_compare(" C:/Models/Hub// "), r"c:\models\hub");
    assert_eq!(normalize_path_for_compare(r"C:\"), r"c:\");
    assert_eq!(score_mount_match(r"c:\MODELS", r"C:\models\"), Some(9));
    assert_eq!(score_mount_match("", r"C:\"), None);
}

fn disk(mount: &str) -> DiskInfo {
    disk_info(" disk ", mount.to_string(), 100, 40)
}

#[test]
fn the_most_specific_disk_is_chosen() {
    let disks = vec![disk(r"C:\"), disk(r"C:\models"), disk(r"D:\")];
    assert_eq!(select_disk_for_hf_cache(&disks, r"C:\models\hub"), Some(1));
    assert_eq!(select_disk_for_hf_cache(&disks, r"C:\other"), Some(0));
    assert_eq!(select_disk_for_hf_cache(&disks, r"E:\x"), None);
    assert_eq!(disks[0].name.as_deref(), Some("disk"));
    assert_eq!(disk_info("  ", "m".to_string(), 1, 1).name, None);
}

#[test]
fn cpu_is_reported_when_anything_is_known() {
    assert_eq!(collect_cpu(0, None, None), None);
    let cpu = collect_cpu(8, Some("  ".to_string()), Some(4)).unwrap();
    assert_eq!(cpu.name, "CPU unavailable");
    assert_eq!(cpu.logical_cores, 8);
    assert_eq!(cpu.physical_cores, Some(4));
    assert_eq!(collect_cpu(0, Some(" Ryzen ".to_string()), None).unwrap().name, "Ryzen");
}

fn adapter(name: &str, ram: JsonValue) -> JsonValue {
    JsonValue::Object(vec![
        JsonMember { key: "Name".to_string(), value: JsonValue::String(name.to_string()) },
        JsonMember { key: "AdapterRAM".to_string(), value: ram },
    ])
}

#[test]
fn gpus_skip_placeholders_and_put_discrete_adapters_first() {
    let listing = JsonValue::Array(vec![
        adapter("Intel(R) UHD Graphics", JsonValue::Number(JsonNumber::PosInt(1024))),
        adapter("Microsoft Basic Display Adapter", JsonValue::Null),
        adapter(" NVIDIA GeForce RTX 4070 ", JsonValue::String("4293918720".to_string())),
        adapter("AMD Radeon", JsonValue::Number(JsonNumber::PosInt(0))),
    ]);
    let gpus = parse_gpu_json(listing);

    assert_eq!(gpus.len(), 3);
    assert_eq!(gpus[0].name, "NVIDIA GeForce RTX 4070");
    assert_eq!(gpus[0].memory_bytes, Some(4_293_918_720));
    assert_eq!(gpus[1].name, "AMD Radeon");
    assert_eq!(gpus[1].memory_bytes, None);
    assert_eq!(gpus[2].name, "Intel(R) UHD Graphics");

    let single = parse_gpu_json(adapter("Only", JsonValue::Null));
    assert_eq!(single.len(), 1);
    assert!(parse_gpu_json(JsonValue::Null).is_empty());
    assert!(is_placeholder_gpu("microsoft REMOTE display adapter"));
}

#[test]
fn equal_keys_keep_their_order() {
    let a = GpuInfo { name: "A".to_string(), memory_bytes: Some(5) };
    let b = GpuInfo { name: "B".to_string(), memory_bytes: Some(5) };
    let c = GpuInfo { name: "intel".to_string(), memory_bytes: Some(9) };
    assert_eq!(gpu_sort_key(&c), (1, 9));
    let sorted = sort_gpus(vec![c.clone(), a.clone(), b.clone()]);
    assert_eq!(sorted, vec![a, b, c]);
}

#[test]
fn gpu_listing_text_is_trimmed_and_parsed() {
    let text = "\u{feff}[{\"Name\":\"NVIDIA RTX\",\"AdapterRAM\":8},{\"Name\":\"Intel UHD\",\"AdapterRAM\":1}]";
    let gpus = modelhub_windows::system_info::gpus_from_json_text(&format!("  {text}\r\n"));
    assert_eq!(gpus.len(), 2);
    assert_eq!(gpus[0].name, "NVIDIA RTX");
    assert_eq!(gpus[0].memory_bytes, Some(8));
    let single = modelhub_windows::system_info::gpus_from_json_text("{\"Name\":\"Only\"}");
    assert_eq!(single.len(), 1);
    assert!(modelhub_windows::system_info::gpus_from_json_text("not json").is_empty());
}
