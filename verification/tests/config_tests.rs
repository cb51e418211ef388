use netlab::cli::{parse_batch_size, parse_payload_size, Cli};
use netlab::config::{ConfigBuilder, Protocol, TransferMechanism};
use netlab::size::Size;

#[test]
fn builder_defaults() {
    let c = ConfigBuilder::new().build();
    assert_eq!(*c.protocol(), Protocol::Tcp);
    assert_eq!(*c.payload_size(), Size::Byte(1));
    assert_eq!(*c.transfer_mechanism(), TransferMechanism::Streaming);
    assert_eq!(*c.block_size(), Size::Byte(1));
    assert_eq!(*c.seed(), 314);
}

#[test]
fn builder_reads_back_what_was_set() {
    let c = ConfigBuilder::new()
        .protocol(Protocol::Quic)
        .transfer_mechanism(TransferMechanism::StopAndWait)
        .payload_size(Size::MB(500))
        .block_size(Size::KB(60))
        .seed(31415)
        .build();
    assert_eq!(*c.protocol(), Protocol::Quic);
    assert_eq!(*c.transfer_mechanism(), TransferMechanism::StopAndWait);
    assert_eq!(*c.payload_size(), Size::MB(500));
    assert_eq!(*c.block_size(), Size::KB(60));
    assert_eq!(*c.seed(), 31415);
}

#[test]
fn builder_last_value_wins() {
    let c = ConfigBuilder::new().seed(1).protocol(Protocol::Udp).seed(2).build();
    assert_eq!(*c.seed(), 2);
    assert_eq!(*c.protocol(), Protocol::Udp);
}

#[test]
fn builder_accepts_block_of_exactly_64kb() {
    let c = ConfigBuilder::new().block_size(Size::KB(64)).build();
    assert_eq!(c.block_size().to_bytes(), 65536);
}

#[test]
fn batch_size_limit() {
    assert_eq!(parse_batch_size("60KB"), Ok(Size::KB(60)));
    assert_eq!(parse_batch_size("65535"), Ok(Size::Byte(65535)));
    assert_eq!(
        parse_batch_size("64KB"),
        Err("Batch size must be 64KB or less".to_string())
    );
    assert_eq!(
        parse_batch_size("1MB"),
        Err("Batch size must be 64KB or less".to_string())
    );
    assert_eq!(parse_batch_size("x"), Err("Invalid number format".to_string()));
    assert_eq!(
        parse_batch_size("5 parsecs"),
        Err("Invalid unit (use B, KB, MB, GB)".to_string())
    );
}

#[test]
fn payload_size_limit() {
    assert_eq!(parse_payload_size("500MB"), Ok(Size::MB(500)));
    assert_eq!(parse_payload_size("1GB"), Ok(Size::GB(1)));
    assert_eq!(parse_payload_size("1024MB"), Ok(Size::MB(1024)));
    assert_eq!(
        parse_payload_size("1025MB"),
        Err("Payload size must be 1GB or less".to_string())
    );
    assert_eq!(
        parse_payload_size("2GB"),
        Err("Payload size must be 1GB or less".to_string())
    );
    assert_eq!(parse_payload_size(""), Err("Invalid number format".to_string()));
}

#[test]
fn cli_settings_make_the_config() {
    let cli = Cli {
        protocol: Protocol::Udp,
        mechanism: TransferMechanism::StopAndWait,
        seed: 314159,
        payload: Size::MB(500),
        batch: Size::KB(60),
        generate_results: false,
    };
    let c = cli.config();
    assert_eq!(*c.protocol(), Protocol::Udp);
    assert_eq!(*c.transfer_mechanism(), TransferMechanism::StopAndWait);
    assert_eq!(*c.payload_size(), Size::MB(500));
    assert_eq!(*c.block_size(), Size::KB(60));
    assert_eq!(*c.seed(), 314159);
}
