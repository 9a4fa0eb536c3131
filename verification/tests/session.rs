use std::time;

use image::{Rgb, RgbImage};
use pixelstream::client::Client;
use pixelstream::duplex::Duplex;
use pixelstream::pixels::PixelBuffer;
use pixelstream::server::Server;
use rand::random;

fn to_client(server: &mut Server, client: &mut Duplex) {
    let bytes = server.stream_mut().take_outbound();
    client.deliver(&bytes);
}

fn to_server(client: &mut Client, server: &mut Server) {
    let bytes = client.stream_mut().take_outbound();
    server.stream_mut().deliver(&bytes);
}

fn server_client(dimensions: (u32, u32)) -> (Server, Client) {
    let mut server = Server::new(Duplex::new(), dimensions.clone()).unwrap();
    let mut client_stream = Duplex::new();
    to_client(&mut server, &mut client_stream);
    let client = Client::new(client_stream).unwrap();

    (server, client)
}

fn pixels(image: RgbImage) -> PixelBuffer {
    let (width, height) = image.dimensions();
    PixelBuffer::from_raw(width, height, image.into_raw()).unwrap()
}

#[test]
fn dimensions() {
    let dimensions = (64, 32);
    let (_server, client) = server_client(dimensions);
    assert_eq!(dimensions, client.dimensions());

    let (_server, client) = server_client(dimensions);
    let dimensions = (65, 32);
    assert_ne!(dimensions, client.dimensions());
}

#[test]
fn simple_image() {
    let (width, height) = (64, 32);
    let (mut server, mut client) = server_client((width, height));
    let image = RgbImage::from_fn(width, height, |x, y| {
        let (x, y) = (x as u8, y as u8);
        if x.wrapping_mul(y) % 5 == 0 {
            Rgb([x, y, x.wrapping_add(y)])
        } else {
            Rgb([255u8.wrapping_sub(y), 255u8.wrapping_sub(x.wrapping_mul(y)), x.wrapping_add(y)])
        }
    });
    client.send(pixels(image.clone())).unwrap();
    to_server(&mut client, &mut server);
    let recieved_image = server.recv().unwrap();
    assert_eq!(image.into_raw(), recieved_image.into_raw());
}

fn framerate(minimum: u8) {
    let (width, height) = (64, 32);
    let (mut server, mut client) = server_client((width, height));
    let test_duration = time::Duration::new(2, 0);
    let start = time::Instant::now();
    let mut frames = 0;

    let image = RgbImage::from_fn(width, height, |_, _| {
        Rgb([random::<u8>(), random::<u8>(), random::<u8>()])
    });
    let image_raw = image.clone().into_raw();

    while time::Instant::now() - start < test_duration {
        let t0 = time::Instant::now();
        for _ in 0..10 {
            client.send(pixels(image.clone())).unwrap();
        }
        to_server(&mut client, &mut server);
        let t1 = time::Instant::now();
        for _ in 0..10 {
            let recieved_image = server.recv().unwrap();
            assert_eq!(image_raw, recieved_image.into_raw());
        }
        let t2 = time::Instant::now();
        frames += 10;
        if frames % 10000 == 0 {
            println!("send:   {:?}", t1 - t0);
            println!("recv:   {:?}", t2 - t1);
            println!("total : {:?}", t2 - t0);
            println!("===============");
        }
    }

    let rate = frames / test_duration.as_secs();
    println!("Framerate: {}, minimum: {}", rate, minimum);
    assert!(rate >= minimum as u64);
}

#[test]
fn framerate_20() {
    framerate(20);
}

#[test]
fn framerate_40() {
    framerate(40);
}

#[test]
fn framerate_60() {
    framerate(60);
}
