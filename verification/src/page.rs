//! The web page.
use vstd::prelude::*;

verus! {

/// The page that a browser gets: live status over a WebSocket, and buttons for the modes
pub const HTML_PAGE: &'static str = r#"<!DOCTYPE html>
<html>
<head>
    <title>Racer</title>
    <meta name="viewport" content="width=device-width, initial-scale=1">
    <style>
        body { font-family: Arial, sans-serif; margin: 20px; background: #f0f0f0; }
        .container { max-width: 600px; margin: 0 auto; background: white; padding: 20px; border-radius: 10px; box-shadow: 0 2px 10px rgba(0,0,0,0.1); }
        h1 { color: #333; text-align: center; }
        .status { margin: 20px 0; padding: 15px; border-radius: 5px; }
        .lcd { background: #1a1a2e; border-left: 4px solid #00d4ff; }
        .lcd-header { display: flex; align-items: center; justify-content: space-between; margin-bottom: 10px; }
        .lcd-header h3 { color: #ccc; margin: 0; }
        .mode-tag { color: #00d4ff; font-weight: bold; font-size: 18px; }
        .lcd canvas { image-rendering: pixelated; width: 288px; height: 160px; border: 1px solid #333; }
        .chart-box { background: #1a1a2e; border-left: 4px solid #00d4ff; }
        .chart-box h3 { color: #ccc; margin: 0 0 8px 0; }
        .chart-box canvas { display: block; max-width: 100%; }
        button { color: white; border: none; padding: 15px 30px; font-size: 18px; border-radius: 5px; cursor: pointer; width: 100%; margin: 10px 0; }
        .btn-display { background: #2196F3; }
        .btn-display:hover { background: #1976D2; }
        .btn-ready { background: #4CAF50; }
        .btn-ready:hover { background: #388E3C; }
        .btn-racing { background: #FF9800; }
        .btn-racing:hover { background: #F57C00; }
        .btn-over { background: #9C27B0; }
        .btn-over:hover { background: #7B1FA2; }
        .btn-reboot { background: #f44336; }
        .btn-reboot:hover { background: #c62828; }
        .loading { color: #666; font-style: italic; }
        .best-time { color: #00d4ff; text-align: center; font-size: 22px; font-weight: bold; padding: 6px 0 2px; letter-spacing: 1px; }
    </style>
</head>
<body>
    <div class="container">
        <h1>Racer</h1>
        <div class="status lcd">
            <div class="lcd-header">
                <h3>LCD Display</h3>
                <span class="mode-tag" id="mode">--</span>
            </div>
            <canvas id="lcd" width="72" height="40"></canvas>
            <div class="best-time" id="best-time">Best: --</div>
        </div>
        <div class="status chart-box">
            <h3>X Acceleration</h3>
            <canvas id="accel-chart" width="520" height="110"></canvas>
        </div>
        <button class="btn-display" onclick="setMode('mode_display')">Display Mode</button>
        <button class="btn-ready" onclick="setMode('mode_ready')">Race Ready</button>
        <button class="btn-racing" onclick="setMode('mode_racing')">Racing</button>
        <button class="btn-over" onclick="setMode('mode_over')">Race Over</button>
        <button class="btn-reboot" onclick="reboot()">Reboot Device</button>
        <div class="loading" id="status">Connecting...</div>
    </div>
    <script>
        const modeEl = document.getElementById('mode');
        const statusEl = document.getElementById('status');
        const bestEl = document.getElementById('best-time');

        function formatTime(ms) {
            var s = Math.floor(ms / 1000);
            var m = ms % 1000;
            return (s < 10 ? '0' : '') + s + '.' +
                   (m < 100 ? '0' : '') + (m < 10 ? '0' : '') + m;
        }

        const accelBuf = [];
        const modeBuf = [];
        const CHART_LEN = 150;
        const chartCanvas = document.getElementById('accel-chart');
        const chartCtx = chartCanvas.getContext('2d');

        function drawChart() {
            const w = chartCanvas.width, h = chartCanvas.height;
            const yMin = -20000, yMax = 20000;
            function toY(v) { return h * (1 - (v - yMin) / (yMax - yMin)); }

            chartCtx.fillStyle = '#0d0d1a';
            chartCtx.fillRect(0, 0, w, h);

            // Shade regions where mode was Racing
            chartCtx.fillStyle = 'rgba(255, 152, 0, 0.15)';
            var inRacing = false, regionStart = 0;
            for (var i = 0; i <= modeBuf.length; i++) {
                var racing = i < modeBuf.length && modeBuf[i] === 'Racing';
                if (racing && !inRacing) {
                    regionStart = (CHART_LEN - modeBuf.length + i) / CHART_LEN * w;
                    inRacing = true;
                } else if (!racing && inRacing) {
                    chartCtx.fillRect(regionStart, 0, (CHART_LEN - modeBuf.length + i) / CHART_LEN * w - regionStart, h);
                    inRacing = false;
                }
            }

            // Grid lines at ±2g, ±1g, 0
            [[16384, '#2a2a3e', '+2g'], [8192, '#1e1e30', '+1g'],
             [0, '#444', ' 0g'], [-8192, '#1e1e30', '-1g'], [-16384, '#2a2a3e', '-2g']
            ].forEach(function(row) {
                var v = row[0], color = row[1], label = row[2];
                chartCtx.strokeStyle = color;
                chartCtx.lineWidth = 1;
                chartCtx.beginPath();
                chartCtx.moveTo(0, toY(v));
                chartCtx.lineTo(w, toY(v));
                chartCtx.stroke();
                chartCtx.fillStyle = '#666';
                chartCtx.font = '10px monospace';
                chartCtx.textAlign = 'right';
                chartCtx.fillText(label, w - 4, toY(v) - 2);
            });

            // Race-start threshold marker
            chartCtx.strokeStyle = '#2a5c2a';
            chartCtx.lineWidth = 1;
            chartCtx.setLineDash([4, 4]);
            chartCtx.beginPath();
            chartCtx.moveTo(0, toY(1500));
            chartCtx.lineTo(w, toY(1500));
            chartCtx.stroke();
            chartCtx.setLineDash([]);
            chartCtx.fillStyle = '#2a8a2a';
            chartCtx.textAlign = 'left';
            chartCtx.fillText('start', 4, toY(1500) - 2);

            if (accelBuf.length < 2) return;
            chartCtx.strokeStyle = '#00d4ff';
            chartCtx.lineWidth = 1.5;
            chartCtx.beginPath();
            for (var i = 0; i < accelBuf.length; i++) {
                var x = (CHART_LEN - accelBuf.length + i) / CHART_LEN * w;
                var y = toY(accelBuf[i]);
                if (i === 0) chartCtx.moveTo(x, y); else chartCtx.lineTo(x, y);
            }
            chartCtx.stroke();
        }

        function updateData(data) {
            if (data.mode !== undefined) modeEl.textContent = data.mode;
            if (data.best && data.best > 0) bestEl.textContent = 'Best: ' + formatTime(data.best);
            accelBuf.push(data.accel.x);
            if (accelBuf.length > CHART_LEN) accelBuf.shift();
            modeBuf.push(data.mode);
            if (modeBuf.length > CHART_LEN) modeBuf.shift();
            drawChart();
            statusEl.textContent = 'Last updated: ' + new Date().toLocaleTimeString();
        }

        const ws = new WebSocket('ws://' + window.location.host + '/ws');
        ws.onopen = () => { statusEl.textContent = 'Connected via WebSocket'; };
        ws.onmessage = (event) => {
            try { const data = JSON.parse(event.data); updateData(data); if (data.display) drawLcd(data.display); }
            catch (e) { statusEl.textContent = 'Invalid WebSocket data'; }
        };
        ws.onclose = () => { statusEl.textContent = 'WebSocket disconnected'; };
        ws.onerror = () => { statusEl.textContent = 'WebSocket error'; };

        const lcdCanvas = document.getElementById('lcd');
        const lcdCtx = lcdCanvas.getContext('2d');
        function drawLcd(hex) {
            const img = lcdCtx.createImageData(72, 40);
            for (let p = 0; p < 5; p++) {
                for (let x = 0; x < 72; x++) {
                    const byte = parseInt(hex.substr((p * 72 + x) * 2, 2), 16);
                    for (let b = 0; b < 8; b++) {
                        const on = (byte >> b) & 1;
                        const i = ((p * 8 + b) * 72 + x) * 4;
                        img.data[i] = on ? 100 : 0; img.data[i+1] = on ? 200 : 0;
                        img.data[i+2] = 255; img.data[i+3] = 255;
                    }
                }
            }
            lcdCtx.putImageData(img, 0, 0);
        }

        function setMode(cmd) {
            if (ws && ws.readyState === WebSocket.OPEN) {
                ws.send(cmd);
                statusEl.textContent = 'Sent: ' + cmd;
            } else { statusEl.textContent = 'WebSocket not connected'; }
        }
        function reboot() {
            if (ws && ws.readyState === WebSocket.OPEN) {
                ws.send('reboot');
                statusEl.textContent = 'Rebooting...';
            } else { statusEl.textContent = 'WebSocket not connected'; }
        }
    </script>
</body>
</html>"#;

} // verus!
